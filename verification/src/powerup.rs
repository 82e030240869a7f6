//! Powerup pickup.
//!
//! A pickup event pairs a side with a powerup entity.  If the side is
//! currently blank and the entity really is a live slide-granting
//! powerup, the powerup is consumed: the entity despawns, the side's tag
//! turns from blank to slide, its collision shape and sprite take the
//! slide footprint, and the owning body's friction drops to zero so the
//! slide can glide.  If either check fails the event is a no-op.

use vstd::prelude::*;
use crate::fixed::Vec2Fx;
use crate::side::Body;
use crate::side::Side;
use crate::side::SideEffect;
use crate::side::SideVisual;
use crate::side::find_idx;
use crate::side::find_side_idx;
use crate::side::lemma_find_idx;

verus! {

/// Half-extents of the slide-capable sensor shape, in subunits.
pub const SLIDE_COLLIDER_HALF_X: i64 = 400;

/// Half-extents of the slide-capable sensor shape, in subunits.
pub const SLIDE_COLLIDER_HALF_Y: i64 = 100;

/// Size of the slide-effect sprite, in subunits.
pub const SLIDE_SPRITE_X: i64 = 1000;

/// Size of the slide-effect sprite, in subunits.
pub const SLIDE_SPRITE_Y: i64 = 250;

/// A proximity event between a side and a powerup entity.
#[derive(Clone, Copy, Debug, PartialEq, Eq, Structural)]
pub struct PickupEvent {
    /// The side that touched the powerup.
    pub side: u64,
    /// The entity to be consumed.
    pub powerup: u64,
}

/// Position of the first occurrence of `id` in `ids`, or `ids.len()` if
/// there is none.
pub open spec fn first_pos(ids: Seq<u64>, id: u64) -> int
    decreases ids.len(),
{
    if ids.len() == 0 {
        0
    } else if ids[0] == id {
        0
    } else {
        1 + first_pos(ids.drop_first(), id)
    }
}

/// `first_pos` stays within `[0, ids.len()]`, and points at `id` exactly
/// when `ids` holds it.
pub proof fn lemma_first_pos(ids: Seq<u64>, id: u64)
    ensures
        0 <= first_pos(ids, id) <= ids.len(),
        first_pos(ids, id) < ids.len() ==> {
            let j = first_pos(ids, id);
            &&& ids[j] == id
            &&& forall|k: int| 0 <= k < j ==> ids[k] != id
        },
        first_pos(ids, id) == ids.len() ==> forall|k: int| 0 <= k < ids.len() ==> ids[k] != id,
    decreases ids.len(),
{
    if ids.len() > 0 && ids[0] != id {
        lemma_first_pos(ids.drop_first(), id);
        let j = first_pos(ids, id);
        if j < ids.len() {
            assert(ids.drop_first()[j - 1] == ids[j]);
            assert forall|k: int| 0 <= k < j implies ids[k] != id by {
                if k > 0 {
                    assert(ids.drop_first()[k - 1] == ids[k]);
                }
            }
        } else {
            assert forall|k: int| 0 <= k < ids.len() implies ids[k] != id by {
                if k > 0 {
                    assert(ids.drop_first()[k - 1] == ids[k]);
                }
            }
        }
    }
}

/// `first_pos` is the only position matching its characterisation: the
/// entry at `j` with no equal entry before it.
pub proof fn lemma_first_pos_is(ids: Seq<u64>, id: u64, j: int)
    requires
        0 <= j < ids.len(),
        ids[j] == id,
        forall|k: int| 0 <= k < j ==> ids[k] != id,
    ensures
        first_pos(ids, id) == j,
    decreases j,
{
    if j > 0 {
        assert(forall|k: int| 0 <= k < ids.drop_first().len() ==> ids.drop_first()[k] == ids[k + 1]);
        lemma_first_pos_is(ids.drop_first(), id, j - 1);
    }
}

/// Executable search for the first occurrence of `id`.
pub fn find_pos(ids: &Vec<u64>, id: u64) -> (p: usize)
    ensures
        p == first_pos(ids@, id),
{
    let mut i: usize = 0;
    while i < ids.len()
        invariant
            i <= ids@.len(),
            forall|q: int| 0 <= q < i ==> ids@[q] != id,
        decreases ids@.len() - i,
    {
        if ids[i] == id {
            proof {
                lemma_first_pos_is(ids@, id, i as int);
            }
            return i;
        }
        i = i + 1;
    }
    proof {
        lemma_first_pos(ids@, id);
    }
    ids.len()
}

/// The side the pickup upgrades: the blank tag replaced by slide, the
/// collision shape and sprite resized to the slide footprint, and the
/// slide-effect sprite installed.
pub open spec fn upgraded_side(s: Side) -> Side {
    Side {
        effect: SideEffect::Slide,
        collider_half: Vec2Fx { x: SLIDE_COLLIDER_HALF_X, y: SLIDE_COLLIDER_HALF_Y },
        sprite_size: Vec2Fx { x: SLIDE_SPRITE_X, y: SLIDE_SPRITE_Y },
        visual: SideVisual::SlideEffect,
        ..s
    }
}

/// One pickup event applied to the scene: if a blank side with the
/// named identity exists and the named powerup is alive, the powerup is
/// removed, the side upgraded and the owning body's friction zeroed;
/// otherwise everything is returned unchanged.
pub open spec fn pickup_step(
    sides: Seq<Side>,
    friction: i64,
    powerups: Seq<u64>,
    e: PickupEvent,
    body_id: u64,
) -> (Seq<Side>, i64, Seq<u64>) {
    let j = find_idx(sides, e.side, SideEffect::Blank);
    let p = first_pos(powerups, e.powerup);
    if j < sides.len() && p < powerups.len() {
        let s = sides[j];
        (
            sides.update(j, upgraded_side(s)),
            if s.parent == body_id {
                0
            } else {
                friction
            },
            powerups.remove(p),
        )
    } else {
        (sides, friction, powerups)
    }
}

/// The first `n` pickup events of a frame applied to the scene, in
/// order.
pub open spec fn pickup_fold(
    sides: Seq<Side>,
    friction: i64,
    powerups: Seq<u64>,
    events: Seq<PickupEvent>,
    body_id: u64,
    n: int,
) -> (Seq<Side>, i64, Seq<u64>)
    decreases n,
{
    if n <= 0 {
        (sides, friction, powerups)
    } else {
        let q = pickup_fold(sides, friction, powerups, events, body_id, n - 1);
        pickup_step(q.0, q.1, q.2, events[n - 1], body_id)
    }
}

/// Consumes a frame of pickup events: each one that names a blank side
/// and a live powerup despawns the powerup, upgrades the side to the
/// slide effect and zeroes the owning body's friction; all other events
/// are no-ops.  Nothing else about the body changes.
pub fn powerup_pickup(
    sides: &mut Vec<Side>,
    body: &mut Body,
    powerups: &mut Vec<u64>,
    events: &Vec<PickupEvent>,
)
    ensures
        ({
            let r = pickup_fold(
                old(sides)@,
                old(body).friction,
                old(powerups)@,
                events@,
                old(body).id,
                events@.len() as int,
            );
            &&& final(sides)@ == r.0
            &&& final(powerups)@ == r.2
            &&& *final(body) == (Body { friction: r.1, ..*old(body) })
        }),
{
    let body_id: u64 = body.id;
    let mut k: usize = 0;
    while k < events.len()
        invariant
            k <= events@.len(),
            body_id == old(body).id,
            ({
                let r = pickup_fold(
                    old(sides)@,
                    old(body).friction,
                    old(powerups)@,
                    events@,
                    body_id,
                    k as int,
                );
                &&& sides@ == r.0
                &&& powerups@ == r.2
                &&& *body == (Body { friction: r.1, ..*old(body) })
            }),
        decreases events@.len() - k,
    {
        let e: PickupEvent = events[k];
        let j: usize = find_side_idx(sides, e.side, SideEffect::Blank);

        let p: usize = find_pos(powerups, e.powerup);
        if j < sides.len() && p < powerups.len() {
            let s: Side = sides[j];
            let mut s2: Side = s;
            s2.effect = SideEffect::Slide;
            s2.collider_half = Vec2Fx { x: SLIDE_COLLIDER_HALF_X, y: SLIDE_COLLIDER_HALF_Y };
            s2.sprite_size = Vec2Fx { x: SLIDE_SPRITE_X, y: SLIDE_SPRITE_Y };
            s2.visual = SideVisual::SlideEffect;
            sides[j] = s2;
            powerups.remove(p);
            if s.parent == body_id {
                body.friction = 0;
            }
        }
        k = k + 1;
    }
}

/// A pickup event aimed at a side that is not blank, or at an entity
/// that is not a live powerup, changes nothing: no state transition, no
/// despawn.
pub proof fn lemma_pickup_noop(
    sides: Seq<Side>,
    friction: i64,
    powerups: Seq<u64>,
    e: PickupEvent,
    body_id: u64,
)
    requires
        (forall|k: int| 0 <= k < sides.len() ==> !((#[trigger] sides[k]).id == e.side
            && sides[k].effect is Blank)) || (forall|k: int| 0 <= k < powerups.len()
            ==> powerups[k] != e.powerup),
    ensures
        pickup_step(sides, friction, powerups, e, body_id) == (sides, friction, powerups),
{
    lemma_find_idx(sides, e.side, SideEffect::Blank);
    lemma_first_pos(powerups, e.powerup);
    let j = find_idx(sides, e.side, SideEffect::Blank);
    let p = first_pos(powerups, e.powerup);
    if j < sides.len() && p < powerups.len() {
        assert(sides[j].id == e.side && sides[j].effect is Blank);
        assert(powerups[p] == e.powerup);
    }
}

/// Pickups only ever turn a blank side into a slide side: after any
/// frame of pickup events, every side either kept its tag or went from
/// blank to slide, and no other field of an untouched side moved.
pub proof fn lemma_pickup_only_blank_to_slide(
    sides: Seq<Side>,
    friction: i64,
    powerups: Seq<u64>,
    events: Seq<PickupEvent>,
    body_id: u64,
    n: int,
)
    requires
        0 <= n,
    ensures
        ({
            let r = pickup_fold(sides, friction, powerups, events, body_id, n);
            &&& r.0.len() == sides.len()
            &&& forall|i: int| 0 <= i < sides.len() ==> (#[trigger] r.0[i]).effect
                == sides[i].effect || (sides[i].effect is Blank && r.0[i].effect is Slide)
            &&& forall|i: int| 0 <= i < sides.len() ==> (#[trigger] r.0[i]).id == sides[i].id
                && r.0[i].parent == sides[i].parent
        }),
    decreases n,
{
    if n > 0 {
        lemma_pickup_only_blank_to_slide(sides, friction, powerups, events, body_id, n - 1);
        let q = pickup_fold(sides, friction, powerups, events, body_id, n - 1);
        let e = events[n - 1];
        lemma_find_idx(q.0, e.side, SideEffect::Blank);
    }
}

} // verus!
