//! Separation: pushing crowded agents apart.

use vstd::prelude::*;
use crate::control::BoidControl;
use crate::distances::DistanceTable;
use crate::neighborhood::{linked, lists_links, survey, Rule, Survey};
use crate::schedule::{ForceCalculationSystemSet, Schedule, System};
use crate::vector::Vector;

verus! {

/// Registers the two systems of the separation rule: the clearing of its
/// accumulators, which runs before any accumulator is filled, and its
/// pairwise pass, which runs before the integrator.
pub struct SeparationPlugin;

impl SeparationPlugin {
    /// Adds the two systems to `schedule`.
    pub fn build(&self, schedule: &mut Schedule)
        ensures
            final(schedule).entries@ == old(schedule).entries@.push(
                (ForceCalculationSystemSet::Pre, System::ClearSeparation),
            ).push((ForceCalculationSystemSet::ForceCalculation, System::CalculateSeparation)),
    {
        schedule.add_system(ForceCalculationSystemSet::Pre, System::ClearSeparation);
        schedule.add_system(
            ForceCalculationSystemSet::ForceCalculation,
            System::CalculateSeparation,
        );
    }
}

/// The separation accumulator of one agent: the sum of the pushes it gets
/// from the agents that crowd it, later scaled by the separation factor.
#[derive(Clone, Copy, Debug, PartialEq, Eq, Structural)]
pub struct Separation {
    pub avoid_direction: Vector,
}

impl Separation {
    /// The state at the start of a tick: no push summed.
    pub open spec fn cleared(self) -> bool {
        self.avoid_direction.cleared()
    }
}

impl Default for Separation {
    fn default() -> (s: Separation)
        ensures
            s.cleared(),
    {
        Separation { avoid_direction: Vector::zero() }
    }
}

/// Whether agents `a` and `b` push each other away: they are distinct, closer
/// than the separation distance, and not so close that the direction from one
/// to the other is lost. Coincident agents do not push each other.
pub open spec fn repels(distances: &DistanceTable, control: &BoidControl, a: int, b: int) -> bool {
    linked(distances, Rule::Crowding, control.separation_distance, a, b)
}

/// Resets every accumulator, whatever the last tick left in it.
pub fn clear_separation(boids: &mut Vec<Separation>)
    ensures
        final(boids)@.len() == old(boids)@.len(),
        forall|k: int| 0 <= k < final(boids)@.len() ==> (#[trigger] final(boids)@[k]).cleared(),
{
    let n: usize = boids.len();
    let mut i: usize = 0;
    while i < n
        invariant
            i <= n,
            boids@.len() == n,
            forall|k: int| 0 <= k < i ==> (#[trigger] boids@[k]).cleared(),
        decreases n - i,
    {
        boids.set(i, Separation::default());
        i += 1;
    }
}

/// The pairwise pass of the separation rule.
///
/// Visits every unordered pair of agents once and reports the pairs that
/// push each other away, in visiting order, smaller index first. One entry
/// serves both agents of the pair: the push has one magnitude, the
/// separation distance less the pair's distance, and opposite directions.
pub fn calculate_separation(distances: &DistanceTable, control: &BoidControl) -> (pairs: Vec<
    (usize, usize),
>)
    ensures
        lists_links(pairs@, distances, Rule::Crowding, control.separation_distance),
{
    let found: Survey = survey(distances, Rule::Crowding, control.separation_distance);
    found.pairs
}

} // verus!
