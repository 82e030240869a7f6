use platformer_core::fixed::Rot2Fx;
use platformer_core::fixed::Vec2Fx;
use platformer_core::fixed::SCALE;
use platformer_core::input::camera_follow;
use platformer_core::input::rotation_control;
use platformer_core::input::steer_intent;
use platformer_core::input::TAU_FX;
use platformer_core::side::Body;

fn body() -> Body {
    Body {
        id: 1,
        position: Vec2Fx { x: 700, y: -300 },
        rot: Rot2Fx { cos: SCALE, sin: 0 },
        linvel: Vec2Fx { x: 0, y: 0 },
        angvel: 500,
        torque: 77,
        impulse: Vec2Fx { x: 0, y: 0 },
        friction: 1500,
        rotation_control_disabled: false,
    }
}

#[test]
fn no_key_gives_no_intent() {
    assert_eq!(steer_intent(false, false), None);
}

#[test]
fn single_keys_give_signed_unit_intent() {
    assert_eq!(steer_intent(true, false), Some(1));
    assert_eq!(steer_intent(false, true), Some(-1));
}

#[test]
fn opposite_keys_cancel_to_zero_intent() {
    // Holding both keys is an intent of zero, which is not the same as
    // holding neither: zero intent still drives the spin toward rest.
    assert_eq!(steer_intent(true, true), Some(0));
}

#[test]
fn rotation_control_drives_torque_toward_the_target_spin() {
    let mut b = body();
    rotation_control(&mut b, true, false);
    assert_eq!(b.torque, (TAU_FX - 500) * 10);
    rotation_control(&mut b, true, true);
    assert_eq!(b.torque, -500 * 10);
}

#[test]
fn rotation_control_zeroes_torque_without_input() {
    let mut b = body();
    rotation_control(&mut b, false, false);
    assert_eq!(b.torque, 0);
}

#[test]
fn rotation_control_is_suppressed_while_sliding() {
    let mut b = body();
    b.rotation_control_disabled = true;
    rotation_control(&mut b, true, false);
    assert_eq!(b.torque, 77);
}

#[test]
fn camera_sits_on_the_body() {
    let b = body();
    let mut cam = Vec2Fx { x: 0, y: 0 };
    camera_follow(&mut cam, &b);
    assert_eq!(cam, b.position);
}
