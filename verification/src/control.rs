//! The tunable parameters of the flock.

use vstd::prelude::*;
use crate::scalar::Scalar;

verus! {

/// The seven parameters that every rule reads during a tick. They are never
/// written while a tick runs; a tuning front end may replace any of them
/// between two ticks. No value is rejected: a threshold that no distance can
/// be below simply switches its rule off.
#[derive(Clone, Copy, Debug, PartialEq, Eq, Structural)]
pub struct BoidControl {
    /// Speed at and above which an agent is slowed down. Tuned from 5 upwards.
    pub max_speed: Scalar,
    /// Distance below which two agents see each other. Tuned from 0 upwards.
    pub vision_range: Scalar,
    /// Distance below which two agents push each other away. Tuned from 0 upwards.
    pub separation_distance: Scalar,
    /// Weight of the push between crowded agents. Tuned between 0 and 0.1.
    pub separation_factor: Scalar,
    /// Weight of the pull toward the neighbours' mean velocity. Tuned between 0 and 1.
    pub alignment_factor: Scalar,
    /// Weight of the pull toward the neighbours' centroid. Tuned between 0 and 0.1.
    pub cohesion_factor: Scalar,
    /// Weight of the pull back to the origin. Tuned between 0 and 1.
    pub return_factor: Scalar,
}

impl BoidControl {
    /// A parameter set from its seven values, in the order of the fields.
    pub fn new(
        max_speed: Scalar,
        vision_range: Scalar,
        separation_distance: Scalar,
        separation_factor: Scalar,
        alignment_factor: Scalar,
        cohesion_factor: Scalar,
        return_factor: Scalar,
    ) -> (control: BoidControl)
        ensures
            control.max_speed == max_speed,
            control.vision_range == vision_range,
            control.separation_distance == separation_distance,
            control.separation_factor == separation_factor,
            control.alignment_factor == alignment_factor,
            control.cohesion_factor == cohesion_factor,
            control.return_factor == return_factor,
    {
        BoidControl {
            max_speed,
            vision_range,
            separation_distance,
            separation_factor,
            alignment_factor,
            cohesion_factor,
            return_factor,
        }
    }
}

impl Default for BoidControl {
    /// All seven parameters positive zero: no rule ever applies.
    fn default() -> (control: BoidControl)
        ensures
            control.max_speed.bits == 0,
            control.vision_range.bits == 0,
            control.separation_distance.bits == 0,
            control.separation_factor.bits == 0,
            control.alignment_factor.bits == 0,
            control.cohesion_factor.bits == 0,
            control.return_factor.bits == 0,
    {
        BoidControl::new(
            Scalar::zero(),
            Scalar::zero(),
            Scalar::zero(),
            Scalar::zero(),
            Scalar::zero(),
            Scalar::zero(),
            Scalar::zero(),
        )
    }
}

} // verus!
