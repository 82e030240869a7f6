//! Jump effect.
//!
//! On each activation of a jump-tagged side, a one-shot impulse is added
//! to the owning body's impulse accumulator: the side's outward normal
//! turned by the body's rotation (direction only, the body's translation
//! plays no part), scaled by a fixed magnitude.  Deactivations are
//! ignored, and simultaneous activations in one frame accumulate
//! additively.

use vstd::prelude::*;
use crate::classify::SideEvent;
use crate::classify::MAX_EVENTS;
use crate::fixed::Rot2Fx;
use crate::fixed::Vec2Fx;
use crate::fixed::rot_app_x;
use crate::fixed::rot_app_y;
use crate::fixed::rotate;
use crate::fixed::lemma_abs_mul_le;
use crate::fixed::lemma_div_scale_bound;
use crate::fixed::OFF_LIMIT;
use crate::fixed::VEL_LIMIT;
use crate::fixed::SCALE;
use crate::side::Body;
use crate::side::Side;
use crate::side::SideEffect;
use crate::side::find_idx;
use crate::side::find_side_idx;
use crate::side::lemma_find_idx;

verus! {

/// Magnitude the outward normal is scaled by on a jump.
pub const JUMP_IMPULSE: i64 = 100;

/// Largest impulse one event can contribute per axis, in subunits:
/// a rotated offset is below `2 * OFF_LIMIT`, scaled by `JUMP_IMPULSE`.
pub const JUMP_STEP: i64 = 200_000_000;

/// The impulse one semantic event contributes: the rotated outward
/// normal of the first jump-tagged side the event names, scaled by
/// `JUMP_IMPULSE`; nothing for a deactivation or an unknown side.
pub open spec fn jump_contribution(rot: Rot2Fx, sides: Seq<Side>, e: SideEvent) -> (int, int) {
    match e {
        SideEvent::Activated(id) => {
            let j = find_idx(sides, id, SideEffect::Jump);
            if j < sides.len() {
                (
                    rot_app_x(rot, sides[j].local_offset) * JUMP_IMPULSE,
                    rot_app_y(rot, sides[j].local_offset) * JUMP_IMPULSE,
                )
            } else {
                (0, 0)
            }
        }
        SideEvent::Deactivated(_) => (0, 0),
    }
}

/// Total impulse the first `n` events of a frame contribute.
pub open spec fn jump_total(rot: Rot2Fx, sides: Seq<Side>, events: Seq<SideEvent>, n: int) -> (int, int)
    decreases n,
{
    if n <= 0 {
        (0, 0)
    } else {
        let p = jump_total(rot, sides, events, n - 1);
        let c = jump_contribution(rot, sides, events[n - 1]);
        (p.0 + c.0, p.1 + c.1)
    }
}

/// Each event contributes at most `JUMP_STEP` per axis, so `n` events
/// stay within `n * JUMP_STEP`.
pub proof fn lemma_jump_total_bound(rot: Rot2Fx, sides: Seq<Side>, events: Seq<SideEvent>, n: int)
    requires
        rot.wf(),
        forall|i: int| 0 <= i < sides.len() ==> (#[trigger] sides[i]).wf(),
        0 <= n,
    ensures
        -(n * JUMP_STEP) <= jump_total(rot, sides, events, n).0 <= n * JUMP_STEP,
        -(n * JUMP_STEP) <= jump_total(rot, sides, events, n).1 <= n * JUMP_STEP,
    decreases n,
{
    if n > 0 {
        lemma_jump_total_bound(rot, sides, events, n - 1);
        let c = jump_contribution(rot, sides, events[n - 1]);
        match events[n - 1] {
            SideEvent::Activated(id) => {
                let j = find_idx(sides, id, SideEffect::Jump);
                lemma_find_idx(sides, id, SideEffect::Jump);
                if j < sides.len() {
                    let off = sides[j].local_offset;
                    lemma_abs_mul_le(rot.cos as int, off.x as int, SCALE as int, OFF_LIMIT as int);
                    lemma_abs_mul_le(rot.sin as int, off.y as int, SCALE as int, OFF_LIMIT as int);
                    lemma_abs_mul_le(rot.sin as int, off.x as int, SCALE as int, OFF_LIMIT as int);
                    lemma_abs_mul_le(rot.cos as int, off.y as int, SCALE as int, OFF_LIMIT as int);
                    lemma_div_scale_bound(
                        rot.cos * off.x - rot.sin * off.y,
                        2 * SCALE * OFF_LIMIT,
                    );
                    lemma_div_scale_bound(
                        rot.sin * off.x + rot.cos * off.y,
                        2 * SCALE * OFF_LIMIT,
                    );
                }
            }
            SideEvent::Deactivated(_) => {}
        }
        assert(n * JUMP_STEP == (n - 1) * JUMP_STEP + JUMP_STEP) by (nonlinear_arith);
    }
}

/// Dispatches a frame of semantic events to the jump effect: every
/// activation of a jump-tagged side adds its rotated, scaled outward
/// normal to the body's impulse accumulator; deactivations and events
/// for other sides leave it alone.  Nothing else about the body changes.
pub fn jump_effect(body: &mut Body, sides: &Vec<Side>, events: &Vec<SideEvent>)
    requires
        old(body).rot.wf(),
        old(body).impulse.bounded(VEL_LIMIT as int),
        forall|i: int| 0 <= i < sides@.len() ==> (#[trigger] sides@[i]).wf(),
        events@.len() <= MAX_EVENTS,
    ensures
        final(body).impulse.x == old(body).impulse.x + jump_total(
            old(body).rot,
            sides@,
            events@,
            events@.len() as int,
        ).0,
        final(body).impulse.y == old(body).impulse.y + jump_total(
            old(body).rot,
            sides@,
            events@,
            events@.len() as int,
        ).1,
        *final(body) == (Body { impulse: final(body).impulse, ..*old(body) }),
{
    let rot: Rot2Fx = body.rot;
    let mut ix: i64 = body.impulse.x;
    let mut iy: i64 = body.impulse.y;
    let mut i: usize = 0;
    while i < events.len()
        invariant
            i <= events@.len(),
            events@.len() <= MAX_EVENTS,
            rot == old(body).rot,
            rot.wf(),
            forall|k: int| 0 <= k < sides@.len() ==> (#[trigger] sides@[k]).wf(),
            old(body).impulse.bounded(VEL_LIMIT as int),
            ix == old(body).impulse.x + jump_total(rot, sides@, events@, i as int).0,
            iy == old(body).impulse.y + jump_total(rot, sides@, events@, i as int).1,
        decreases events@.len() - i,
    {
        proof {
            lemma_jump_total_bound(rot, sides@, events@, i as int);
            lemma_jump_total_bound(rot, sides@, events@, i + 1);
        }
        let e: SideEvent = events[i];
        match e {
            SideEvent::Activated(id) => {
                let j: usize = find_side_idx(sides, id, SideEffect::Jump);
                if j < sides.len() {
                    let d: Vec2Fx = rotate(rot, sides[j].local_offset);
                    ix = ix + d.x * JUMP_IMPULSE;
                    iy = iy + d.y * JUMP_IMPULSE;
                }
            }
            SideEvent::Deactivated(_) => {}
        }
        i = i + 1;
    }
    body.impulse = Vec2Fx { x: ix, y: iy };
}

} // verus!
