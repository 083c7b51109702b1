//! Cohesion: steering toward the centroid of the agents in sight.

use vstd::prelude::*;
use crate::control::BoidControl;
use crate::distances::DistanceTable;
use crate::neighborhood::{
    lemma_unlinked_counts_zero, link_count, linked, lists_links, memberships, survey, Rule,
    Survey,
};
use crate::schedule::{ForceCalculationSystemSet, Schedule, System};
use crate::vector::Vector;

verus! {

/// Registers the two systems of the cohesion rule: the clearing of its
/// accumulators, which runs before any accumulator is filled, and its
/// pairwise pass, which runs before the integrator.
pub struct CohesionPlugin;

impl CohesionPlugin {
    /// Adds the two systems to `schedule`.
    pub fn build(&self, schedule: &mut Schedule)
        ensures
            final(schedule).entries@ == old(schedule).entries@.push(
                (ForceCalculationSystemSet::Pre, System::ClearCohesion),
            ).push((ForceCalculationSystemSet::ForceCalculation, System::CalculateCohesion)),
    {
        schedule.add_system(ForceCalculationSystemSet::Pre, System::ClearCohesion);
        schedule.add_system(
            ForceCalculationSystemSet::ForceCalculation,
            System::CalculateCohesion,
        );
    }
}

/// The cohesion accumulator of one agent.
///
/// During a tick it first holds the sum of the positions of the agents in
/// sight, together with their number, and then the steering correction made
/// from them.
#[derive(Clone, Copy, Debug, PartialEq, Eq, Structural)]
pub struct Cohesion {
    pub neighborhood_cohesion: Vector,
    pub neighbors: usize,
}

impl Cohesion {
    /// The state at the start of a tick: nothing summed, nobody counted.
    pub open spec fn cleared(self) -> bool {
        self.neighborhood_cohesion.cleared() && self.neighbors == 0
    }

    /// Whether the sum is to be averaged and turned into a correction. An
    /// agent that saw nobody keeps its accumulator as it is.
    pub fn has_neighbors(&self) -> (r: bool)
        ensures
            r == (self.neighbors > 0),
    {
        self.neighbors > 0
    }
}

impl Default for Cohesion {
    fn default() -> (a: Cohesion)
        ensures
            a.cleared(),
    {
        Cohesion { neighborhood_cohesion: Vector::zero(), neighbors: 0 }
    }
}

/// Whether agents `a` and `b` are distinct and closer than the vision range.
pub open spec fn coheres_with(
    distances: &DistanceTable,
    control: &BoidControl,
    a: int,
    b: int,
) -> bool {
    linked(distances, Rule::Sight, control.vision_range, a, b)
}

/// Number of agents that agent `k` coheres with.
pub open spec fn cohesion_neighbors(
    distances: &DistanceTable,
    control: &BoidControl,
    k: int,
) -> nat {
    link_count(distances, Rule::Sight, control.vision_range, k)
}

/// What the counting pass does to the accumulators: every agent's count
/// grows by the number of agents it coheres with, and no sum is touched.
pub open spec fn cohesion_counted(
    before: Seq<Cohesion>,
    after: Seq<Cohesion>,
    distances: &DistanceTable,
    control: &BoidControl,
) -> bool {
    &&& after.len() == before.len()
    &&& forall|k: int|
        0 <= k < before.len() ==> (#[trigger] after[k]).neighbors == before[k].neighbors
            + cohesion_neighbors(distances, control, k)
    &&& forall|k: int|
        0 <= k < before.len() ==> (#[trigger] after[k]).neighborhood_cohesion
            == before[k].neighborhood_cohesion
}

/// Resets every accumulator, whatever the last tick left in it.
pub fn clear_cohesion(boids: &mut Vec<Cohesion>)
    ensures
        final(boids)@.len() == old(boids)@.len(),
        forall|k: int| 0 <= k < final(boids)@.len() ==> (#[trigger] final(boids)@[k]).cleared(),
{
    let n: usize = boids.len();
    let mut i: usize = 0;
    while i < n
        invariant
            i <= n,
            boids@.len() == n,
            forall|k: int| 0 <= k < i ==> (#[trigger] boids@[k]).cleared(),
        decreases n - i,
    {
        boids.set(i, Cohesion::default());
        i += 1;
    }
}

/// The pairwise pass of the cohesion rule.
///
/// Visits every unordered pair of agents once. For a pair closer than
/// `control.vision_range` both agents count one more neighbour, and the pair
/// is reported so that each agent's position can be added to the other's sum.
/// The pairs come in visiting order, smaller index first.
pub fn calculate_cohesion(
    boids: &mut Vec<Cohesion>,
    distances: &DistanceTable,
    control: &BoidControl,
) -> (pairs: Vec<(usize, usize)>)
    requires
        old(boids)@.len() == distances.population(),
        forall|k: int|
            0 <= k < old(boids)@.len() ==> (#[trigger] old(boids)@[k]).neighbors
                + cohesion_neighbors(distances, control, k) <= usize::MAX,
    ensures
        cohesion_counted(old(boids)@, final(boids)@, distances, control),
        lists_links(pairs@, distances, Rule::Sight, control.vision_range),
        forall|k: int|
            0 <= k < old(boids)@.len() ==> (#[trigger] final(boids)@[k]).neighbors == old(
                boids,
            )@[k].neighbors + memberships(pairs@, k),
{
    let found: Survey = survey(distances, Rule::Sight, control.vision_range);
    let n: usize = boids.len();
    let mut i: usize = 0;
    while i < n
        invariant
            i <= n,
            n == distances.population(),
            boids@.len() == n,
            found.counts@.len() == n,
            forall|k: int|
                0 <= k < n ==> found.counts@[k] == cohesion_neighbors(distances, control, k),
            forall|k: int| 0 <= k < n ==> found.counts@[k] == memberships(found.pairs@, k),
            forall|k: int|
                0 <= k < n ==> (#[trigger] old(boids)@[k]).neighbors + cohesion_neighbors(
                    distances,
                    control,
                    k,
                ) <= usize::MAX,
            forall|k: int|
                0 <= k < i ==> (#[trigger] boids@[k]).neighbors == old(boids)@[k].neighbors
                    + cohesion_neighbors(distances, control, k),
            forall|k: int|
                0 <= k < n ==> (#[trigger] boids@[k]).neighborhood_cohesion == old(
                    boids,
                )@[k].neighborhood_cohesion,
            forall|k: int| i <= k < n ==> (#[trigger] boids@[k]).neighbors == old(boids)@[k].neighbors,
        decreases n - i,
    {
        let seen: usize = found.counts[i];
        let current: Cohesion = boids[i];
        assert(old(boids)@[i as int].neighbors + cohesion_neighbors(distances, control, i as int)
            <= usize::MAX);
        boids.set(
            i,
            Cohesion {
                neighborhood_cohesion: current.neighborhood_cohesion,
                neighbors: current.neighbors + seen,
            },
        );
        i += 1;
    }
    found.pairs
}

/// An agent that sees nobody comes out of the pairwise pass as it went in:
/// cleared before, it is still cleared, and no correction is made for it.
pub proof fn lemma_isolated_cohesion_stays_cleared(
    before: Seq<Cohesion>,
    after: Seq<Cohesion>,
    distances: &DistanceTable,
    control: &BoidControl,
    k: int,
)
    requires
        cohesion_counted(before, after, distances, control),
        0 <= k < before.len(),
        before[k].cleared(),
        forall|b: int| !coheres_with(distances, control, k, b),
    ensures
        after[k].cleared(),
        after[k].neighbors == 0,
{
    assert forall|b: int| !linked(distances, Rule::Sight, control.vision_range, k, b) by {
        assert(!coheres_with(distances, control, k, b));
    }
    lemma_unlinked_counts_zero(
        distances,
        Rule::Sight,
        control.vision_range,
        k,
        distances.population() as int,
    );
}

} // verus!
