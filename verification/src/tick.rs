//! The tick: one fixed step of the simulation.

use vstd::prelude::*;
use crate::alignment::AlignmentPlugin;
use crate::cohesion::CohesionPlugin;
use crate::schedule::{
    lemma_registration_appends, run_order_of, systems_in, ForceCalculationSystemSet, Schedule,
    System,
};
use crate::separation::SeparationPlugin;

verus! {

/// The systems of a tick in the order in which they run: the three clearings,
/// then the three pairwise passes, then the integrator.
pub open spec fn tick_order() -> Seq<System> {
    seq![
        System::ClearSeparation,
        System::ClearAlignment,
        System::ClearCohesion,
        System::CalculateSeparation,
        System::CalculateAlignment,
        System::CalculateCohesion,
        System::ApplyForces,
    ]
}

/// The schedule of a tick: the three steering rules registered through their
/// plugins, and the integrator behind them.
///
/// Every accumulator is cleared before any is filled, and all are filled
/// before the integrator reads them.
pub fn tick_schedule() -> (schedule: Schedule)
    ensures
        run_order_of(schedule.entries@) == tick_order(),
{
    let mut schedule: Schedule = Schedule::new();
    SeparationPlugin.build(&mut schedule);
    AlignmentPlugin.build(&mut schedule);
    CohesionPlugin.build(&mut schedule);
    schedule.add_system(ForceCalculationSystemSet::Post, System::ApplyForces);
    proof {
        let pre = ForceCalculationSystemSet::Pre;
        let mid = ForceCalculationSystemSet::ForceCalculation;
        let post = ForceCalculationSystemSet::Post;
        let e0 = Seq::<(ForceCalculationSystemSet, System)>::empty();
        let e1 = e0.push((pre, System::ClearSeparation));
        let e2 = e1.push((mid, System::CalculateSeparation));
        let e3 = e2.push((pre, System::ClearAlignment));
        let e4 = e3.push((mid, System::CalculateAlignment));
        let e5 = e4.push((pre, System::ClearCohesion));
        let e6 = e5.push((mid, System::CalculateCohesion));
        let e7 = e6.push((post, System::ApplyForces));
        assert(schedule.entries@ == e7);
        assert forall|set: ForceCalculationSystemSet|
            #![trigger systems_in(e7, set)]
            systems_in(e7, set) == match set {
                ForceCalculationSystemSet::Pre => seq![
                    System::ClearSeparation,
                    System::ClearAlignment,
                    System::ClearCohesion,
                ],
                ForceCalculationSystemSet::ForceCalculation => seq![
                    System::CalculateSeparation,
                    System::CalculateAlignment,
                    System::CalculateCohesion,
                ],
                ForceCalculationSystemSet::Post => seq![System::ApplyForces],
            } by {
            lemma_registration_appends(e0, pre, System::ClearSeparation, set);
            lemma_registration_appends(e1, mid, System::CalculateSeparation, set);
            lemma_registration_appends(e2, pre, System::ClearAlignment, set);
            lemma_registration_appends(e3, mid, System::CalculateAlignment, set);
            lemma_registration_appends(e4, pre, System::ClearCohesion, set);
            lemma_registration_appends(e5, mid, System::CalculateCohesion, set);
            lemma_registration_appends(e6, post, System::ApplyForces, set);
            assert(systems_in(e7, set) =~= match set {
                ForceCalculationSystemSet::Pre => seq![
                    System::ClearSeparation,
                    System::ClearAlignment,
                    System::ClearCohesion,
                ],
                ForceCalculationSystemSet::ForceCalculation => seq![
                    System::CalculateSeparation,
                    System::CalculateAlignment,
                    System::CalculateCohesion,
                ],
                ForceCalculationSystemSet::Post => seq![System::ApplyForces],
            });
        }
        assert(run_order_of(e7) =~= tick_order());
    }
    schedule
}

} // verus!
