//! The player body and its side sensors.
//!
//! A side is a sensor rigidly offset from the body's origin by a local
//! transform; it never owns a position of its own, its world position is
//! recomputed from the body every frame.  Each side carries exactly one
//! effect tag (blank, jump or slide), an activity flag driven by the
//! contact classifier, and, while sliding audibly, the handle of its
//! looping audio stream.

use vstd::prelude::*;
use crate::classify::SideEvent;
use crate::fixed::Vec2Fx;
use crate::fixed::Rot2Fx;
use crate::fixed::rot_app_x;
use crate::fixed::rot_app_y;
use crate::fixed::rot_comp_cos;
use crate::fixed::rot_comp_sin;
use crate::fixed::rot_compose;
use crate::fixed::rotate;
use crate::fixed::OFF_LIMIT;
use crate::fixed::VEL_LIMIT;

verus! {

/// Largest number of sides one body may carry through the frame
/// physics.
pub const MAX_SIDES: usize = 64;

/// The effect bound to a side: exactly one of these at a time.
#[derive(Clone, Copy, Debug, PartialEq, Eq, Structural)]
pub enum SideEffect {
    /// No behaviour: activation events are ignored.
    Blank,
    /// A one-shot impulse along the side's outward normal on activation.
    Jump,
    /// Continuous drag and steerable force while active, with a looping
    /// sound and suppressed rotation control.
    Slide,
}

/// The visual representation a side carries.
#[derive(Clone, Copy, Debug, PartialEq, Eq, Structural)]
pub enum SideVisual {
    /// The plain sensor look a side starts with.
    Base,
    /// The slide-effect sprite a pickup installs.
    SlideEffect,
}

/// A side sensor attached to the player body.
#[derive(Clone, Copy, Debug)]
pub struct Side {
    /// Entity identity the classifier names in its events.
    pub id: u64,
    /// Identity of the owning body: a non-owning back-reference.
    pub parent: u64,
    /// Local offset of the sensor from the body origin, in subunits.
    pub local_offset: Vec2Fx,
    /// Local rotation of the sensor.
    pub local_rot: Rot2Fx,
    /// The effect this side's activation events dispatch to.
    pub effect: SideEffect,
    /// Whether the side currently overlaps the world trigger region.
    pub active: bool,
    /// Handle of the side's looping audio stream, if one is playing.
    pub audio: Option<u64>,
    /// Half-extents of the sensor's collision shape, in subunits.
    pub collider_half: Vec2Fx,
    /// Size of the side's sprite, in subunits.
    pub sprite_size: Vec2Fx,
    /// Which sprite the side shows.
    pub visual: SideVisual,
}

impl Side {
    /// A well-formed side: geometry within limits, and an audio stream
    /// only on a slide side.
    pub open spec fn wf(self) -> bool {
        &&& self.local_offset.bounded(OFF_LIMIT as int)
        &&& self.local_rot.wf()
        &&& self.audio is Some ==> self.effect is Slide
    }
}

/// The dynamic player body, as the physics engine reports and accepts
/// it: pose, velocities, the external force and one-shot impulse
/// accumulators, friction, and the slide-owned rotation-control flag.
#[derive(Clone, Copy, Debug)]
pub struct Body {
    /// Entity identity sides name in their back-references.
    pub id: u64,
    /// World position of the body origin, in subunits.
    pub position: Vec2Fx,
    /// World rotation of the body.
    pub rot: Rot2Fx,
    /// Linear velocity, in subunits per second.
    pub linvel: Vec2Fx,
    /// Angular velocity, in milliradians per second.
    pub angvel: i64,
    /// One-shot impulse accumulator, cleared by the integrator.
    pub impulse: Vec2Fx,
    /// Persistent external torque.
    pub torque: i64,
    /// Friction coefficient, in subunits.
    pub friction: i64,
    /// Set while a slide effect suppresses rotational input control.
    pub rotation_control_disabled: bool,
}

impl Body {
    /// A well-formed body: rotation within one unit, accumulators within
    /// the limits the effect arithmetic needs.
    pub open spec fn wf(self) -> bool {
        &&& self.rot.wf()
        &&& self.position.bounded(VEL_LIMIT as int)
        &&& self.linvel.bounded(VEL_LIMIT as int)
        &&& self.impulse.bounded(VEL_LIMIT as int)
        &&& -VEL_LIMIT <= self.angvel <= VEL_LIMIT
    }
}

/// World position of a side: the body's position plus the side's local
/// offset turned by the body's rotation.  Recomputed every frame; a side
/// never keeps an independent position.
pub fn side_world_position(body: &Body, side: &Side) -> (p: Vec2Fx)
    requires
        body.rot.wf(),
        body.position.bounded(VEL_LIMIT as int),
        side.local_offset.bounded(OFF_LIMIT as int),
    ensures
        p.x == body.position.x + rot_app_x(body.rot, side.local_offset),
        p.y == body.position.y + rot_app_y(body.rot, side.local_offset),
{
    let dir: Vec2Fx = rotate(body.rot, side.local_offset);
    Vec2Fx { x: body.position.x + dir.x, y: body.position.y + dir.y }
}

/// World rotation of a side: the body's rotation composed with the
/// side's local rotation — the orientation half of the side's world
/// transform, recomputed every frame like the position.
pub fn side_world_rot(body: &Body, side: &Side) -> (r: Rot2Fx)
    requires
        body.rot.wf(),
        side.local_rot.wf(),
    ensures
        r.cos == rot_comp_cos(body.rot, side.local_rot),
        r.sin == rot_comp_sin(body.rot, side.local_rot),
{
    rot_compose(body.rot, side.local_rot)
}

/// Index of the first side with identity `id` and effect tag `tag`, or
/// `sides.len()` if there is none.
pub open spec fn find_idx(sides: Seq<Side>, id: u64, tag: SideEffect) -> int
    decreases sides.len(),
{
    if sides.len() == 0 {
        0
    } else if sides[0].id == id && sides[0].effect == tag {
        0
    } else {
        1 + find_idx(sides.drop_first(), id, tag)
    }
}

/// `find_idx` stays within `[0, sides.len()]`, and points at a matching
/// side exactly when one exists.
pub proof fn lemma_find_idx(sides: Seq<Side>, id: u64, tag: SideEffect)
    ensures
        0 <= find_idx(sides, id, tag) <= sides.len(),
        find_idx(sides, id, tag) < sides.len() ==> {
            let j = find_idx(sides, id, tag);
            &&& sides[j].id == id
            &&& sides[j].effect == tag
            &&& forall|k: int| 0 <= k < j ==> !(sides[k].id == id && #[trigger] sides[k].effect == tag)
        },
        find_idx(sides, id, tag) == sides.len() ==> forall|k: int|
            0 <= k < sides.len() ==> !(sides[k].id == id && #[trigger] sides[k].effect == tag),
    decreases sides.len(),
{
    if sides.len() > 0 {
        if !(sides[0].id == id && sides[0].effect == tag) {
            lemma_find_idx(sides.drop_first(), id, tag);
            let j = find_idx(sides, id, tag);
            if j < sides.len() {
                assert(sides.drop_first()[j - 1] == sides[j]);
                assert forall|k: int| 0 <= k < j implies !(sides[k].id == id
                    && #[trigger] sides[k].effect == tag) by {
                    if k > 0 {
                        assert(sides.drop_first()[k - 1] == sides[k]);
                    }
                }
            } else {
                assert forall|k: int| 0 <= k < sides.len() implies !(sides[k].id == id
                    && #[trigger] sides[k].effect == tag) by {
                    if k > 0 {
                        assert(sides.drop_first()[k - 1] == sides[k]);
                    }
                }
            }
        }
    }
}

/// `find_idx` is the only position matching its characterisation: a
/// match at `j` with no match before it.
pub proof fn lemma_find_idx_is(s: Seq<Side>, id: u64, tag: SideEffect, j: int)
    requires
        0 <= j < s.len(),
        s[j].id == id,
        s[j].effect == tag,
        forall|k: int| 0 <= k < j ==> !(s[k].id == id && #[trigger] s[k].effect == tag),
    ensures
        find_idx(s, id, tag) == j,
    decreases j,
{
    if j > 0 {
        assert(forall|k: int| 0 <= k < s.drop_first().len() ==> s.drop_first()[k] == s[k + 1]);
        lemma_find_idx_is(s.drop_first(), id, tag, j - 1);
    }
}

/// Replacing the side `find_idx` points at by one with the same identity
/// and tag leaves `find_idx` where it was.
pub proof fn lemma_find_idx_update(sides: Seq<Side>, id: u64, tag: SideEffect, t: Side)
    requires
        find_idx(sides, id, tag) < sides.len(),
        t.id == sides[find_idx(sides, id, tag)].id,
        t.effect == sides[find_idx(sides, id, tag)].effect,
    ensures
        find_idx(sides.update(find_idx(sides, id, tag), t), id, tag) == find_idx(sides, id, tag),
{
    let j = find_idx(sides, id, tag);
    lemma_find_idx(sides, id, tag);
    let s2 = sides.update(j, t);
    assert(s2[j].id == id && s2[j].effect == tag);
    assert(forall|k: int| 0 <= k < j ==> !(s2[k].id == id && #[trigger] s2[k].effect == tag));
    lemma_find_idx_is(s2, id, tag, j);
}

/// Executable search for the first side with identity `id` and tag `tag`.
pub fn find_side_idx(sides: &Vec<Side>, id: u64, tag: SideEffect) -> (j: usize)
    ensures
        j == find_idx(sides@, id, tag),
{
    let mut i: usize = 0;
    proof {
        assert(sides@.skip(0) =~= sides@);
    }
    while i < sides.len()
        invariant
            i <= sides@.len(),
            find_idx(sides@, id, tag) == i + find_idx(sides@.skip(i as int), id, tag),
        decreases sides@.len() - i,
    {
        let s: Side = sides[i];
        proof {
            assert(sides@.skip(i as int)[0] == sides@[i as int]);
        }
        if s.id == id && s.effect == tag {
            return i;
        }
        proof {
            assert(sides@.skip(i as int).drop_first() =~= sides@.skip(i + 1));
        }
        i = i + 1;
    }
    proof {
        assert(sides@.skip(sides@.len() as int) =~= Seq::<Side>::empty());
        lemma_find_idx(sides@, id, tag);
    }
    sides.len()
}

/// One semantic event applied to one side's activity flag: activation
/// and deactivation of the named side set and clear it, any other
/// side is untouched.
pub open spec fn side_after_event(s: Side, e: SideEvent) -> Side {
    if s.id == e.spec_side() {
        match e {
            SideEvent::Activated(_) => Side { active: true, ..s },
            SideEvent::Deactivated(_) => Side { active: false, ..s },
        }
    } else {
        s
    }
}

/// A frame of semantic events applied to one side's activity flag, in
/// order.
pub open spec fn side_after_events(s: Side, events: Seq<SideEvent>) -> Side
    decreases events.len(),
{
    if events.len() == 0 {
        s
    } else {
        side_after_event(side_after_events(s, events.drop_last()), events.last())
    }
}

/// The activity dispatcher only ever moves the activity flag: whatever
/// the frame's events, every other field of a side stays put.
pub proof fn lemma_activity_changes_only_active(s: Side, events: Seq<SideEvent>)
    ensures
        side_after_events(s, events) == (Side {
            active: side_after_events(s, events).active,
            ..s
        }),
    decreases events.len(),
{
    if events.len() > 0 {
        lemma_activity_changes_only_active(s, events.drop_last());
    }
}

/// Drives every side's activity flag from this frame's semantic events:
/// a side is active after the call exactly as the last event naming it
/// says, and nothing else about any side changes.
pub fn apply_activity(sides: &mut Vec<Side>, events: &Vec<SideEvent>)
    ensures
        final(sides)@.len() == old(sides)@.len(),
        forall|i: int| 0 <= i < old(sides)@.len()
            ==> final(sides)@[i] == side_after_events(old(sides)@[i], events@),
{
    let mut j: usize = 0;
    while j < sides.len()
        invariant
            j <= sides@.len(),
            sides@.len() == old(sides)@.len(),
            forall|i: int| 0 <= i < j ==> sides@[i] == side_after_events(old(sides)@[i], events@),
            forall|i: int| j <= i < sides@.len() ==> sides@[i] == old(sides)@[i],
        decreases sides@.len() - j,
    {
        let mut s: Side = sides[j];
        let mut k: usize = 0;
        while k < events.len()
            invariant
                k <= events@.len(),
                j < old(sides)@.len(),
                s == side_after_events(old(sides)@[j as int], events@.take(k as int)),
            decreases events@.len() - k,
        {
            let e: SideEvent = events[k];
            if s.id == e.side() {
                match e {
                    SideEvent::Activated(_) => {
                        s.active = true;
                    }
                    SideEvent::Deactivated(_) => {
                        s.active = false;
                    }
                }
            }
            proof {
                assert(events@.take(k + 1).drop_last() =~= events@.take(k as int));
                assert(events@.take(k + 1).last() == events@[k as int]);
            }
            k = k + 1;
        }
        proof {
            assert(events@.take(events@.len() as int) =~= events@);
        }
        sides[j] = s;
        j = j + 1;
    }
}

} // verus!
