//! Alignment: steering toward the mean velocity of the agents in sight.

use vstd::prelude::*;
use crate::control::BoidControl;
use crate::distances::DistanceTable;
use crate::neighborhood::{
    lemma_unlinked_counts_zero, link_count, linked, lists_links, memberships, survey, Rule,
    Survey,
};
use crate::schedule::{ForceCalculationSystemSet, Schedule, System};
use crate::vector::Vector;

verus! {

/// Registers the two systems of the alignment rule: the clearing of its
/// accumulators, which runs before any accumulator is filled, and its
/// pairwise pass, which runs before the integrator.
pub struct AlignmentPlugin;

impl AlignmentPlugin {
    /// Adds the two systems to `schedule`.
    pub fn build(&self, schedule: &mut Schedule)
        ensures
            final(schedule).entries@ == old(schedule).entries@.push(
                (ForceCalculationSystemSet::Pre, System::ClearAlignment),
            ).push((ForceCalculationSystemSet::ForceCalculation, System::CalculateAlignment)),
    {
        schedule.add_system(ForceCalculationSystemSet::Pre, System::ClearAlignment);
        schedule.add_system(
            ForceCalculationSystemSet::ForceCalculation,
            System::CalculateAlignment,
        );
    }
}

/// The alignment accumulator of one agent.
///
/// During a tick it first holds the sum of the velocities of the agents in
/// sight, together with their number, and then the steering correction made
/// from them.
#[derive(Clone, Copy, Debug, PartialEq, Eq, Structural)]
pub struct Alignment {
    pub neighborhood_alignment: Vector,
    pub neighbors: usize,
}

impl Alignment {
    /// The state at the start of a tick: nothing summed, nobody counted.
    pub open spec fn cleared(self) -> bool {
        self.neighborhood_alignment.cleared() && self.neighbors == 0
    }

    /// Whether the sum is to be averaged and turned into a correction. An
    /// agent that saw nobody keeps its accumulator as it is.
    pub fn has_neighbors(&self) -> (r: bool)
        ensures
            r == (self.neighbors > 0),
    {
        self.neighbors > 0
    }
}

impl Default for Alignment {
    fn default() -> (a: Alignment)
        ensures
            a.cleared(),
    {
        Alignment { neighborhood_alignment: Vector::zero(), neighbors: 0 }
    }
}

/// Whether agents `a` and `b` are distinct and closer than the vision range.
pub open spec fn aligns_with(
    distances: &DistanceTable,
    control: &BoidControl,
    a: int,
    b: int,
) -> bool {
    linked(distances, Rule::Sight, control.vision_range, a, b)
}

/// Number of agents that agent `k` aligns with.
pub open spec fn alignment_neighbors(
    distances: &DistanceTable,
    control: &BoidControl,
    k: int,
) -> nat {
    link_count(distances, Rule::Sight, control.vision_range, k)
}

/// What the counting pass does to the accumulators: every agent's count
/// grows by the number of agents it aligns with, and no sum is touched.
pub open spec fn alignment_counted(
    before: Seq<Alignment>,
    after: Seq<Alignment>,
    distances: &DistanceTable,
    control: &BoidControl,
) -> bool {
    &&& after.len() == before.len()
    &&& forall|k: int|
        0 <= k < before.len() ==> (#[trigger] after[k]).neighbors == before[k].neighbors
            + alignment_neighbors(distances, control, k)
    &&& forall|k: int|
        0 <= k < before.len() ==> (#[trigger] after[k]).neighborhood_alignment
            == before[k].neighborhood_alignment
}

/// Resets every accumulator, whatever the last tick left in it.
pub fn clear_alignment(boids: &mut Vec<Alignment>)
    ensures
        final(boids)@.len() == old(boids)@.len(),
        forall|k: int| 0 <= k < final(boids)@.len() ==> (#[trigger] final(boids)@[k]).cleared(),
{
    let n: usize = boids.len();
    let mut i: usize = 0;
    while i < n
        invariant
            i <= n,
            boids@.len() == n,
            forall|k: int| 0 <= k < i ==> (#[trigger] boids@[k]).cleared(),
        decreases n - i,
    {
        boids.set(i, Alignment::default());
        i += 1;
    }
}

/// The pairwise pass of the alignment rule.
///
/// Visits every unordered pair of agents once. For a pair closer than
/// `control.vision_range` both agents count one more neighbour, and the pair
/// is reported so that each agent's velocity can be added to the other's sum.
/// The pairs come in visiting order, smaller index first.
pub fn calculate_alignment(
    boids: &mut Vec<Alignment>,
    distances: &DistanceTable,
    control: &BoidControl,
) -> (pairs: Vec<(usize, usize)>)
    requires
        old(boids)@.len() == distances.population(),
        forall|k: int|
            0 <= k < old(boids)@.len() ==> (#[trigger] old(boids)@[k]).neighbors
                + alignment_neighbors(distances, control, k) <= usize::MAX,
    ensures
        alignment_counted(old(boids)@, final(boids)@, distances, control),
        lists_links(pairs@, distances, Rule::Sight, control.vision_range),
        forall|k: int|
            0 <= k < old(boids)@.len() ==> (#[trigger] final(boids)@[k]).neighbors == old(
                boids,
            )@[k].neighbors + memberships(pairs@, k),
{
    let found: Survey = survey(distances, Rule::Sight, control.vision_range);
    let n: usize = boids.len();
    let mut i: usize = 0;
    while i < n
        invariant
            i <= n,
            n == distances.population(),
            boids@.len() == n,
            found.counts@.len() == n,
            forall|k: int|
                0 <= k < n ==> found.counts@[k] == alignment_neighbors(distances, control, k),
            forall|k: int| 0 <= k < n ==> found.counts@[k] == memberships(found.pairs@, k),
            forall|k: int|
                0 <= k < n ==> (#[trigger] old(boids)@[k]).neighbors + alignment_neighbors(
                    distances,
                    control,
                    k,
                ) <= usize::MAX,
            forall|k: int|
                0 <= k < i ==> (#[trigger] boids@[k]).neighbors == old(boids)@[k].neighbors
                    + alignment_neighbors(distances, control, k),
            forall|k: int|
                0 <= k < n ==> (#[trigger] boids@[k]).neighborhood_alignment == old(
                    boids,
                )@[k].neighborhood_alignment,
            forall|k: int| i <= k < n ==> (#[trigger] boids@[k]).neighbors == old(boids)@[k].neighbors,
        decreases n - i,
    {
        let seen: usize = found.counts[i];
        let current: Alignment = boids[i];
        assert(old(boids)@[i as int].neighbors + alignment_neighbors(distances, control, i as int)
            <= usize::MAX);
        boids.set(
            i,
            Alignment {
                neighborhood_alignment: current.neighborhood_alignment,
                neighbors: current.neighbors + seen,
            },
        );
        i += 1;
    }
    found.pairs
}

/// An agent that sees nobody comes out of the pairwise pass as it went in:
/// cleared before, it is still cleared, and no correction is made for it.
pub proof fn lemma_isolated_alignment_stays_cleared(
    before: Seq<Alignment>,
    after: Seq<Alignment>,
    distances: &DistanceTable,
    control: &BoidControl,
    k: int,
)
    requires
        alignment_counted(before, after, distances, control),
        0 <= k < before.len(),
        before[k].cleared(),
        forall|b: int| !aligns_with(distances, control, k, b),
    ensures
        after[k].cleared(),
        after[k].neighbors == 0,
{
    assert forall|b: int| !linked(distances, Rule::Sight, control.vision_range, k, b) by {
        assert(!aligns_with(distances, control, k, b));
    }
    lemma_unlinked_counts_zero(
        distances,
        Rule::Sight,
        control.vision_range,
        k,
        distances.population() as int,
    );
}

} // verus!
