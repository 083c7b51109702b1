use bevy::math::Vec3;
use boids::integrator::{
    first_stage, heading_follows, regulate_speed, return_force_applies,
};
use boids::{apply_forces, BoidControl, Scalar, SpeedAdjustment, Stage, Step};

fn scalar(value: f32) -> Scalar {
    Scalar::from_bits(value.to_bits())
}

fn control(max_speed: f32) -> BoidControl {
    BoidControl::new(
        scalar(max_speed),
        scalar(25.0),
        scalar(10.0),
        scalar(0.05),
        scalar(0.05),
        scalar(0.005),
        scalar(0.001),
    )
}

#[test]
fn speed_at_or_above_the_top_speed_decays() {
    let control = control(5.0);
    assert_eq!(regulate_speed(scalar(5.0), &control), SpeedAdjustment::Decay);
    assert_eq!(regulate_speed(scalar(5.0000005), &control), SpeedAdjustment::Decay);
    assert_eq!(regulate_speed(scalar(10.0), &control), SpeedAdjustment::Decay);
    assert_eq!(regulate_speed(scalar(f32::INFINITY), &control), SpeedAdjustment::Decay);
}

#[test]
fn speed_below_a_fifth_of_the_top_speed_grows() {
    let control = control(5.0);
    assert_eq!(regulate_speed(scalar(0.99999994), &control), SpeedAdjustment::Grow);
    assert_eq!(regulate_speed(scalar(0.5), &control), SpeedAdjustment::Grow);
    assert_eq!(regulate_speed(scalar(0.0), &control), SpeedAdjustment::Grow);
}

#[test]
fn speed_in_the_band_is_kept() {
    let control = control(5.0);
    assert_eq!(regulate_speed(scalar(1.0), &control), SpeedAdjustment::Keep);
    assert_eq!(regulate_speed(scalar(3.0), &control), SpeedAdjustment::Keep);
    assert_eq!(regulate_speed(scalar(4.9999995), &control), SpeedAdjustment::Keep);
}

#[test]
fn speed_that_is_no_number_is_kept() {
    assert_eq!(regulate_speed(scalar(f32::NAN), &control(5.0)), SpeedAdjustment::Keep);
    assert_eq!(regulate_speed(scalar(3.0), &control(f32::NAN)), SpeedAdjustment::Keep);
}

#[test]
fn a_top_speed_of_zero_or_less_decays_every_speed() {
    for max_speed in [0.0f32, -0.0, -5.0] {
        for speed in [0.0f32, 1.0, 100.0] {
            assert_eq!(regulate_speed(scalar(speed), &control(max_speed)), SpeedAdjustment::Decay);
        }
    }
}

#[test]
fn an_agent_at_the_origin_is_not_pulled() {
    assert!(!return_force_applies(scalar(Vec3::ZERO.length())));
    assert!(!return_force_applies(scalar(0.0)));
    assert!(!return_force_applies(scalar(f32::NAN)));
    assert!(!return_force_applies(scalar(f32::INFINITY)));
    assert!(!return_force_applies(Scalar::from_bits(1)));
    assert!(return_force_applies(scalar(Vec3::new(3.0, 4.0, 0.0).length())));
    assert!(return_force_applies(scalar(0.5)));
}

#[test]
fn an_agent_at_rest_keeps_its_heading() {
    assert!(!heading_follows(scalar(Vec3::ZERO.length())));
    assert!(!heading_follows(scalar(f32::NAN)));
    assert!(!heading_follows(scalar(f32::INFINITY)));
    assert!(heading_follows(scalar(Vec3::new(0.0, -2.0, 0.0).length())));
}

#[test]
fn the_integrator_accelerates_regulates_and_advances() {
    let control = control(5.0);
    let stage = first_stage();
    assert_eq!(stage, Stage::Accelerating);
    let (stage, step) = apply_forces(stage, scalar(100.0), &control);
    assert_eq!(stage, Stage::Regulating);
    assert_eq!(step, Step::Accelerate { return_force: true });
    let (stage, step) = apply_forces(stage, scalar(6.0), &control);
    assert_eq!(stage, Stage::Advancing);
    assert_eq!(step, Step::Regulate { adjustment: SpeedAdjustment::Decay });
    let (stage, step) = apply_forces(stage, scalar(5.97), &control);
    assert_eq!(stage, Stage::Accelerating);
    assert_eq!(step, Step::Advance { reorient: true });
}

#[test]
fn the_integrator_leaves_out_what_has_no_direction() {
    let control = control(5.0);
    let (stage, step) = apply_forces(Stage::Accelerating, scalar(0.0), &control);
    assert_eq!(step, Step::Accelerate { return_force: false });
    let (stage, step) = apply_forces(stage, scalar(0.0), &control);
    assert_eq!(step, Step::Regulate { adjustment: SpeedAdjustment::Grow });
    let (stage, step) = apply_forces(stage, scalar(0.0), &control);
    assert_eq!(step, Step::Advance { reorient: false });
    assert_eq!(stage, Stage::Accelerating);
}

// Performs one step on a velocity as the integrator's caller does, with no
// correction and no return force to add.
fn perform(step: Step, velocity: &mut Vec3) {
    match step {
        Step::Accelerate { .. } => {}
        Step::Regulate { adjustment } => match adjustment {
            SpeedAdjustment::Decay => *velocity *= 0.995,
            SpeedAdjustment::Grow => *velocity *= 1.005,
            SpeedAdjustment::Keep => {}
        },
        Step::Advance { .. } => {}
    }
}

#[test]
fn speed_decays_from_twice_the_top_speed_into_the_band() {
    let max_speed: f32 = 5.0;
    let control = control(max_speed);
    let mut velocity = Vec3::new(6.0, 8.0, 0.0);
    assert_eq!(velocity.length(), 2.0 * max_speed);
    let mut ticks: u32 = 0;
    loop {
        let before = velocity.length();
        let adjustment = regulate_speed(scalar(before), &control);
        assert_ne!(adjustment, SpeedAdjustment::Grow);
        if adjustment == SpeedAdjustment::Keep {
            break;
        }
        perform(Step::Regulate { adjustment }, &mut velocity);
        let after = velocity.length();
        assert!(after < before);
        assert!(after >= max_speed / 5.0);
        assert!(after > 0.99 * max_speed);
        ticks += 1;
        assert!(ticks < 1000);
    }
    // 2 * 0.995^n drops below 1 at n = 139.
    assert_eq!(ticks, 139);
    assert!(velocity.length() < max_speed);
    assert!(velocity.length() > 0.995 * max_speed - 1.0e-4);
}

#[test]
fn speed_grows_from_rest_speed_into_the_band() {
    let max_speed: f32 = 5.0;
    let control = control(max_speed);
    let mut velocity = Vec3::new(0.3, 0.4, 0.0);
    let mut ticks: u32 = 0;
    loop {
        let before = velocity.length();
        let adjustment = regulate_speed(scalar(before), &control);
        assert_ne!(adjustment, SpeedAdjustment::Decay);
        if adjustment == SpeedAdjustment::Keep {
            break;
        }
        perform(Step::Regulate { adjustment }, &mut velocity);
        assert!(velocity.length() > before);
        ticks += 1;
        assert!(ticks < 1000);
    }
    // 0.5 * 1.005^n reaches 1 at n = 139.
    assert_eq!(ticks, 139);
    assert!(velocity.length() >= max_speed / 5.0);
    assert!(velocity.length() < max_speed / 5.0 * 1.006);
}
