//! Player input and camera.
//!
//! Raw held keys become a signed steering intent: the left and right
//! keys each contribute one unit, of opposite signs, so holding both
//! cancels to zero — which is distinct from holding neither, where no
//! intent exists at all.  The intent both steers the slide effect and,
//! through ordinary rotation control, drives the body's torque toward a
//! target spin — unless a slide currently suppresses rotation control.
//! The camera simply follows the body.

use vstd::prelude::*;
use crate::fixed::Vec2Fx;
use crate::fixed::VEL_LIMIT;
use crate::side::Body;

verus! {

/// One full turn per second, in milliradians per second: the target
/// angular speed of full steering input.
pub const TAU_FX: i64 = 6283;

/// Gain from the angular-speed error to the applied torque.
pub const TORQUE_GAIN: i64 = 10;

/// The steering intent of the held keys: none when no key is held, and
/// otherwise the signed sum of one unit per key, opposite keys
/// cancelling to zero.
pub open spec fn steer_intent_spec(left: bool, right: bool) -> Option<i64> {
    if left && right {
        Some(0i64)
    } else if left {
        Some(1i64)
    } else if right {
        Some(-1i64)
    } else {
        None
    }
}

/// Maps the held movement keys to the signed steering intent.
pub fn steer_intent(left: bool, right: bool) -> (r: Option<i64>)
    ensures
        r == steer_intent_spec(left, right),
{
    let mut dir: Option<i64> = None;
    if left {
        dir = Some(1);
    }
    if right {
        dir = match dir {
            Some(d) => Some(d - 1),
            None => Some(-1),
        };
    }
    dir
}

/// The torque rotation control applies: the gap between the intent's
/// target angular speed and the current one, scaled by the gain; zero
/// torque when no key is held.
pub open spec fn torque_spec(intent: Option<i64>, angvel: i64) -> int {
    match intent {
        Some(d) => (d * TAU_FX - angvel) * TORQUE_GAIN,
        None => 0,
    }
}

/// Ordinary rotation control: drives the body's torque from the held
/// keys and its angular speed — unless an active slide has disabled
/// rotation control, in which case the body is left entirely alone.
pub fn rotation_control(body: &mut Body, left: bool, right: bool)
    requires
        -VEL_LIMIT <= old(body).angvel <= VEL_LIMIT,
    ensures
        old(body).rotation_control_disabled ==> *final(body) == *old(body),
        !old(body).rotation_control_disabled ==> final(body).torque == torque_spec(
            steer_intent_spec(left, right),
            old(body).angvel,
        ),
        !old(body).rotation_control_disabled ==> *final(body) == (Body {
            torque: final(body).torque,
            ..*old(body)
        }),
{
    if body.rotation_control_disabled {
        return ;
    }
    match steer_intent(left, right) {
        Some(d) => {
            body.torque = (d * TAU_FX - body.angvel) * TORQUE_GAIN;
        }
        None => {
            body.torque = 0;
        }
    }
}

/// The camera tracks the body: after the call it sits exactly on the
/// body's position.
pub fn camera_follow(camera: &mut Vec2Fx, body: &Body)
    ensures
        *final(camera) == body.position,
{
    *camera = body.position;
}

} // verus!
