//! The integrator: what becomes of an agent once its three corrections are
//! known.
//!
//! For each agent the integrator adds the corrections and a pull back to the
//! origin to the velocity, nudges the speed toward the band between a fifth
//! of the top speed and the top speed, turns the heading into the direction
//! of travel and moves the agent by its velocity. The arithmetic is the
//! caller's; the order of the steps and every decision in them are made
//! here, from the lengths the caller measures.

use vstd::prelude::*;
use crate::control::BoidControl;
use crate::scalar::Scalar;

verus! {

/// What the speed regulation does to a velocity.
#[derive(Clone, Copy, Debug, PartialEq, Eq, Structural)]
pub enum SpeedAdjustment {
    /// Scale the velocity by 0.995.
    Decay,
    /// Scale the velocity by 1.005.
    Grow,
    /// Leave the velocity as it is.
    Keep,
}

/// The regulation of a speed against the top speed: decay at or above the
/// top speed, growth below a fifth of it, nothing in between. A NaN on
/// either side leaves the velocity alone.
pub open spec fn regulation(speed: Scalar, max_speed: Scalar) -> SpeedAdjustment {
    if speed.at_least(max_speed) {
        SpeedAdjustment::Decay
    } else if speed.less_than_fifth_of(max_speed) {
        SpeedAdjustment::Grow
    } else {
        SpeedAdjustment::Keep
    }
}

/// Decides how the speed regulation treats a velocity of length `speed`.
pub fn regulate_speed(speed: Scalar, control: &BoidControl) -> (adjustment: SpeedAdjustment)
    ensures
        adjustment == regulation(speed, control.max_speed),
{
    if speed.ge(control.max_speed) {
        SpeedAdjustment::Decay
    } else if speed.is_below_fifth_of(control.max_speed) {
        SpeedAdjustment::Grow
    } else {
        SpeedAdjustment::Keep
    }
}

/// Whether a vector of this length has a direction: its length can be
/// divided by. A vector of length zero has none, nor has one whose length is
/// subnormal, infinite or a NaN.
pub open spec fn has_direction(length: Scalar) -> bool {
    length.positive_normal()
}

/// Decides whether an agent at this distance from the origin is pulled back
/// toward it. An agent at the origin is left alone.
pub fn return_force_applies(position_length: Scalar) -> (r: bool)
    ensures
        r == has_direction(position_length),
{
    position_length.is_positive_normal()
}

/// Decides whether an agent of this speed turns its heading into its
/// direction of travel. An agent at rest keeps the heading it has.
pub fn heading_follows(speed: Scalar) -> (r: bool)
    ensures
        r == has_direction(speed),
{
    speed.is_positive_normal()
}

/// Where the integrator stands with one agent: which measurement it waits
/// for.
#[derive(Clone, Copy, Debug, PartialEq, Eq, Structural)]
pub enum Stage {
    /// Waiting for the length of the position.
    Accelerating,
    /// Waiting for the length of the velocity, the corrections added.
    Regulating,
    /// Waiting for the length of the velocity, the speed regulated.
    Advancing,
}

/// What the caller is to do to the agent next.
#[derive(Clone, Copy, Debug, PartialEq, Eq, Structural)]
pub enum Step {
    /// Add the separation, alignment and cohesion corrections to the
    /// velocity and, if `return_force` is set, the pull toward the origin:
    /// the unit vector from the agent to the origin, times the binary
    /// logarithm of its distance, times the return factor.
    Accelerate { return_force: bool },
    /// Scale the velocity as `adjustment` says.
    Regulate { adjustment: SpeedAdjustment },
    /// If `reorient` is set, turn the heading into the direction of the
    /// velocity. Then move the position by the velocity.
    Advance { reorient: bool },
}

/// The stage that follows `stage`; after the last comes the first, for the
/// next tick.
pub open spec fn stage_after(stage: Stage) -> Stage {
    match stage {
        Stage::Accelerating => Stage::Regulating,
        Stage::Regulating => Stage::Advancing,
        Stage::Advancing => Stage::Accelerating,
    }
}

/// The step taken at `stage` when the awaited length is `measured`.
pub open spec fn step_at(stage: Stage, measured: Scalar, control: &BoidControl) -> Step {
    match stage {
        Stage::Accelerating => Step::Accelerate { return_force: has_direction(measured) },
        Stage::Regulating => Step::Regulate {
            adjustment: regulation(measured, control.max_speed),
        },
        Stage::Advancing => Step::Advance { reorient: has_direction(measured) },
    }
}

/// The stage at which the integrator takes up an agent.
pub fn first_stage() -> (stage: Stage)
    ensures
        stage == Stage::Accelerating,
{
    Stage::Accelerating
}

/// One move of the integrator for one agent: from the stage it is at and the
/// length it was waiting for, the step to perform and the stage that follows.
///
/// The caller measures the length of the position, performs the step it is
/// handed, measures the length of the velocity, performs the next step,
/// measures the length of the velocity again and performs the last.
pub fn apply_forces(stage: Stage, measured: Scalar, control: &BoidControl) -> (next: (Stage, Step))
    ensures
        next.0 == stage_after(stage),
        next.1 == step_at(stage, measured, control),
{
    match stage {
        Stage::Accelerating => (
            Stage::Regulating,
            Step::Accelerate { return_force: return_force_applies(measured) },
        ),
        Stage::Regulating => (
            Stage::Advancing,
            Step::Regulate { adjustment: regulate_speed(measured, control) },
        ),
        Stage::Advancing => (
            Stage::Accelerating,
            Step::Advance { reorient: heading_follows(measured) },
        ),
    }
}

/// The three adjustments split the finite speeds into three ranges: decay
/// from the top speed upwards, growth below a fifth of the top speed, and
/// the band in between, where the velocity is kept.
pub proof fn lemma_regulation_ranges(speed: Scalar, max_speed: Scalar)
    requires
        speed.finite(),
        max_speed.finite(),
    ensures
        regulation(speed, max_speed) == SpeedAdjustment::Decay <==> speed.units()
            >= max_speed.units(),
        regulation(speed, max_speed) == SpeedAdjustment::Grow <==> 5 * speed.units()
            < max_speed.units() && speed.units() < max_speed.units(),
        regulation(speed, max_speed) == SpeedAdjustment::Keep <==> max_speed.units() <= 5
            * speed.units() && speed.units() < max_speed.units(),
{
}

/// The regulation does not overshoot. A velocity that was decayed and kept
/// at least a fifth of its speed is not asked to grow next, and a velocity
/// that was grown to at most five times its speed is not asked to decay.
pub proof fn lemma_regulation_does_not_overshoot(speed: Scalar, scaled: Scalar, max_speed: Scalar)
    requires
        speed.finite(),
        scaled.finite(),
        max_speed.finite(),
    ensures
        regulation(speed, max_speed) == SpeedAdjustment::Decay && 5 * scaled.units()
            >= speed.units() ==> regulation(scaled, max_speed) != SpeedAdjustment::Grow,
        regulation(speed, max_speed) == SpeedAdjustment::Grow && scaled.units() <= 5
            * speed.units() ==> regulation(scaled, max_speed) != SpeedAdjustment::Decay,
{
}

/// The stages come round: after three moves the integrator is back where it
/// started, whatever was measured.
pub proof fn lemma_stages_cycle(stage: Stage)
    ensures
        stage_after(stage_after(stage_after(stage))) == stage,
        stage_after(stage) != stage,
{
}

} // verus!
