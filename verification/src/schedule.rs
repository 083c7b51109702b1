//! The order of the systems within a tick.
//!
//! A tick runs three sets of systems one after the other: first the systems
//! that clear the accumulators, then those that fill them, then the
//! integrator that reads them. Each steering rule registers its two systems
//! through its plugin.

use vstd::prelude::*;

verus! {

/// The three sets of a tick, in the order in which they run.
#[derive(Clone, Copy, Debug, PartialEq, Eq, Structural)]
pub enum ForceCalculationSystemSet {
    /// The accumulators are cleared.
    Pre,
    /// The accumulators are filled.
    ForceCalculation,
    /// The accumulators are read and the agents moved.
    Post,
}

/// The systems of a tick.
#[derive(Clone, Copy, Debug, PartialEq, Eq, Structural)]
pub enum System {
    ClearSeparation,
    CalculateSeparation,
    ClearAlignment,
    CalculateAlignment,
    ClearCohesion,
    CalculateCohesion,
    ApplyForces,
}

/// The systems registered for `set`, in the order of their registration.
pub open spec fn systems_in(
    entries: Seq<(ForceCalculationSystemSet, System)>,
    set: ForceCalculationSystemSet,
) -> Seq<System>
    decreases entries.len(),
{
    if entries.len() == 0 {
        Seq::empty()
    } else {
        let earlier = systems_in(entries.drop_last(), set);
        if entries.last().0 == set {
            earlier.push(entries.last().1)
        } else {
            earlier
        }
    }
}

/// The order in which the registered systems run: set by set, and within a
/// set in the order of registration.
pub open spec fn run_order_of(entries: Seq<(ForceCalculationSystemSet, System)>) -> Seq<System> {
    systems_in(entries, ForceCalculationSystemSet::Pre) + systems_in(
        entries,
        ForceCalculationSystemSet::ForceCalculation,
    ) + systems_in(entries, ForceCalculationSystemSet::Post)
}

/// Registering one more system appends it to the run of its own set and
/// leaves the other sets as they were.
pub proof fn lemma_registration_appends(
    entries: Seq<(ForceCalculationSystemSet, System)>,
    set: ForceCalculationSystemSet,
    system: System,
    other: ForceCalculationSystemSet,
)
    ensures
        systems_in(entries.push((set, system)), other) == if other == set {
            systems_in(entries, other).push(system)
        } else {
            systems_in(entries, other)
        },
{
    let longer = entries.push((set, system));
    assert(longer.drop_last() =~= entries);
    assert(longer.last() == (set, system));
}

/// The systems registered for a tick, each with its set.
pub struct Schedule {
    pub entries: Vec<(ForceCalculationSystemSet, System)>,
}

impl Schedule {
    /// A schedule with no system.
    pub fn new() -> (schedule: Schedule)
        ensures
            schedule.entries@ == Seq::<(ForceCalculationSystemSet, System)>::empty(),
    {
        Schedule { entries: Vec::new() }
    }

    /// Registers `system` to run in `set`.
    pub fn add_system(&mut self, set: ForceCalculationSystemSet, system: System)
        ensures
            final(self).entries@ == old(self).entries@.push((set, system)),
    {
        self.entries.push((set, system));
    }

    fn collect(&self, set: ForceCalculationSystemSet, order: &mut Vec<System>)
        ensures
            final(order)@ == old(order)@ + systems_in(self.entries@, set),
    {
        let n: usize = self.entries.len();
        let mut i: usize = 0;
        assert(self.entries@.take(0) =~= Seq::empty());
        assert(old(order)@ + Seq::<System>::empty() =~= old(order)@);
        while i < n
            invariant
                i <= n,
                n == self.entries@.len(),
                order@ == old(order)@ + systems_in(self.entries@.take(i as int), set),
            decreases n - i,
        {
            let entry: (ForceCalculationSystemSet, System) = self.entries[i];
            proof {
                let longer = self.entries@.take(i + 1);
                assert(longer.drop_last() =~= self.entries@.take(i as int));
                assert(longer.last() == entry);
                let earlier = systems_in(self.entries@.take(i as int), set);
                assert((old(order)@ + earlier).push(entry.1) =~= old(order)@ + earlier.push(
                    entry.1,
                ));
            }
            if entry.0 == set {
                order.push(entry.1);
            }
            i += 1;
        }
        assert(self.entries@.take(n as int) =~= self.entries@);
    }

    /// The order in which the registered systems run.
    pub fn run_order(&self) -> (order: Vec<System>)
        ensures
            order@ == run_order_of(self.entries@),
    {
        let mut order: Vec<System> = Vec::new();
        self.collect(ForceCalculationSystemSet::Pre, &mut order);
        self.collect(ForceCalculationSystemSet::ForceCalculation, &mut order);
        self.collect(ForceCalculationSystemSet::Post, &mut order);
        assert(order@ =~= run_order_of(self.entries@));
        order
    }
}

} // verus!
