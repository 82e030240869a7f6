//! Slide effect.
//!
//! While a slide-tagged side is active it drags the owning body along
//! the side's outward normal every frame, lets the player steer along
//! the tangent, and keeps a looping sound whose volume follows the slide
//! speed.  Activation starts the sound (tearing down any stream the side
//! already owned) and suppresses rotational input control on the body;
//! deactivation stops the sound and restores control.

use vstd::prelude::*;
use crate::classify::SideEvent;
use crate::fixed::Rot2Fx;
use crate::fixed::Vec2Fx;
use crate::fixed::rot_app_x;
use crate::fixed::rot_app_y;
use crate::fixed::rotate;
use crate::fixed::perp;
use crate::fixed::div_scale;
use crate::fixed::div_scale_i64;
use crate::fixed::clamp_unit;
use crate::fixed::abs_fx;
use crate::fixed::lemma_abs_mul_le;
use crate::fixed::lemma_div_scale_bound;
use crate::fixed::OFF_LIMIT;
use crate::fixed::VEL_LIMIT;
use crate::fixed::SCALE;
use crate::side::Body;
use crate::side::Side;
use crate::side::SideEffect;
use crate::side::find_idx;
use crate::side::find_side_idx;
use crate::side::lemma_find_idx;
use crate::side::lemma_find_idx_update;
use crate::side::MAX_SIDES;

verus! {

/// Drag accumulated per second along the outward normal, in units of
/// velocity per unit of direction.
pub const DRAG_RATE: i64 = 10;

/// Steering force accumulated per second along the tangent, per unit of
/// steering intent.
pub const STEER_RATE: i64 = 100;

/// Longest accepted frame duration, in fixed-point seconds: ten seconds.
pub const DT_LIMIT: i64 = 10_000;

/// Largest velocity change one gated side can contribute in one frame,
/// per axis: drag plus full steering at the limits above.
pub const SLIDE_STEP: i64 = 2_200_000_000;

/// An order for the audio engine, issued while toggling slide effects.
#[derive(Clone, Copy, Debug, PartialEq, Eq, Structural)]
pub enum AudioCommand {
    /// Stop and release the stream behind this handle.
    Stop(u64),
    /// Start the looping slide stream under this fresh handle.
    PlayLoop(u64),
}

/// One semantic event applied to the slide toggle state: the sides, the
/// body's rotation-control flag, and the audio commands the event emits.
/// Only the first slide-tagged side the event names reacts; activation
/// stops any stream that side already owned, starts a fresh one and
/// raises the flag on the owning body, deactivation stops the stream and
/// clears the flag.
pub open spec fn toggle_step(
    sides: Seq<Side>,
    disabled: bool,
    e: SideEvent,
    fresh: u64,
    body_id: u64,
) -> (Seq<Side>, bool, Seq<AudioCommand>) {
    let j = find_idx(sides, e.spec_side(), SideEffect::Slide);
    if j < sides.len() {
        let s = sides[j];
        let stops: Seq<AudioCommand> = if s.audio is Some {
            seq![AudioCommand::Stop(s.audio.unwrap())]
        } else {
            seq![]
        };
        match e {
            SideEvent::Activated(_) => (
                sides.update(j, Side { audio: Some(fresh), ..s }),
                if s.parent == body_id {
                    true
                } else {
                    disabled
                },
                stops + seq![AudioCommand::PlayLoop(fresh)],
            ),
            SideEvent::Deactivated(_) => (
                sides.update(j, Side { audio: None, ..s }),
                if s.parent == body_id {
                    false
                } else {
                    disabled
                },
                stops,
            ),
        }
    } else {
        (sides, disabled, seq![])
    }
}

/// The first `n` events of a frame applied to the slide toggle state, in
/// order, with the audio commands of all of them concatenated.
pub open spec fn toggle_fold(
    sides: Seq<Side>,
    disabled: bool,
    events: Seq<SideEvent>,
    fresh: Seq<u64>,
    body_id: u64,
    n: int,
) -> (Seq<Side>, bool, Seq<AudioCommand>)
    decreases n,
{
    if n <= 0 {
        (sides, disabled, seq![])
    } else {
        let p = toggle_fold(sides, disabled, events, fresh, body_id, n - 1);
        let st = toggle_step(p.0, p.1, events[n - 1], fresh[n - 1], body_id);
        (st.0, st.1, p.2 + st.2)
    }
}

/// Applies a frame of semantic events to the slide effect's lifecycle
/// state: for each event naming a slide-tagged side, the side's audio
/// stream and the owning body's rotation-control flag follow
/// `toggle_step`, and the returned commands tell the audio engine what
/// to stop and start, in order.  A fresh stream handle per event must
/// be supplied; the handle of event `k` is `fresh[k]`.  Nothing else
/// about the body changes.
pub fn slide_toggle(
    sides: &mut Vec<Side>,
    body: &mut Body,
    events: &Vec<SideEvent>,
    fresh: &Vec<u64>,
) -> (cmds: Vec<AudioCommand>)
    requires
        fresh@.len() >= events@.len(),
    ensures
        ({
            let r = toggle_fold(
                old(sides)@,
                old(body).rotation_control_disabled,
                events@,
                fresh@,
                old(body).id,
                events@.len() as int,
            );
            &&& final(sides)@ == r.0
            &&& cmds@ == r.2
            &&& *final(body) == (Body { rotation_control_disabled: r.1, ..*old(body) })
        }),
{
    let mut cmds: Vec<AudioCommand> = Vec::new();
    let body_id: u64 = body.id;
    let mut k: usize = 0;
    while k < events.len()
        invariant
            k <= events@.len(),
            fresh@.len() >= events@.len(),
            body_id == old(body).id,
            ({
                let r = toggle_fold(
                    old(sides)@,
                    old(body).rotation_control_disabled,
                    events@,
                    fresh@,
                    body_id,
                    k as int,
                );
                &&& sides@ == r.0
                &&& cmds@ == r.2
                &&& *body == (Body { rotation_control_disabled: r.1, ..*old(body) })
            }),
        decreases events@.len() - k,
    {
        let ghost cmds_before = cmds@;
        let e: SideEvent = events[k];
        let j: usize = find_side_idx(sides, e.side(), SideEffect::Slide);
        if j < sides.len() {
            let s: Side = sides[j];
            match s.audio {
                Some(h) => {
                    cmds.push(AudioCommand::Stop(h));
                }
                None => {}
            }
            match e {
                SideEvent::Activated(_) => {
                    let f: u64 = fresh[k];
                    cmds.push(AudioCommand::PlayLoop(f));
                    let mut s2: Side = s;
                    s2.audio = Some(f);
                    sides[j] = s2;
                    if s.parent == body_id {
                        body.rotation_control_disabled = true;
                    }
                }
                SideEvent::Deactivated(_) => {
                    let mut s2: Side = s;
                    s2.audio = None;
                    sides[j] = s2;
                    if s.parent == body_id {
                        body.rotation_control_disabled = false;
                    }
                }
            }
        }
        proof {
            let p = toggle_fold(
                old(sides)@,
                old(body).rotation_control_disabled,
                events@,
                fresh@,
                body_id,
                k as int,
            );
            let st = toggle_step(p.0, p.1, events@[k as int], fresh@[k as int], body_id);
            assert(cmds@ =~= cmds_before + st.2);
        }
        k = k + 1;
    }
    cmds
}

/// The toggle machinery only ever moves audio state: after any frame
/// of events every side keeps its identity, owner, geometry, activity
/// and effect tag, and a side holds a stream only if it is slide-tagged
/// (provided that held before, as well-formedness demands).  Effect
/// tags change through powerup pickup alone.
pub proof fn lemma_toggle_changes_only_audio(
    sides: Seq<Side>,
    disabled: bool,
    events: Seq<SideEvent>,
    fresh: Seq<u64>,
    body_id: u64,
    n: int,
)
    requires
        0 <= n,
        forall|i: int| 0 <= i < sides.len()
            ==> ((#[trigger] sides[i]).audio is Some ==> sides[i].effect is Slide),
    ensures
        ({
            let r = toggle_fold(sides, disabled, events, fresh, body_id, n);
            &&& r.0.len() == sides.len()
            &&& forall|i: int| 0 <= i < sides.len()
                ==> #[trigger] r.0[i] == (Side { audio: r.0[i].audio, ..sides[i] })
            &&& forall|i: int| 0 <= i < sides.len()
                ==> ((#[trigger] r.0[i]).audio is Some ==> r.0[i].effect is Slide)
        }),
    decreases n,
{
    if n > 0 {
        lemma_toggle_changes_only_audio(sides, disabled, events, fresh, body_id, n - 1);
        let p = toggle_fold(sides, disabled, events, fresh, body_id, n - 1);
        let e = events[n - 1];
        lemma_find_idx(p.0, e.spec_side(), SideEffect::Slide);
    }
}

/// Activation followed by deactivation of the same slide side is clean:
/// the side is left with no audio stream, the stream the pair started is
/// the very one the pair stops, every other side is untouched, and the
/// owning body's rotation-control flag ends cleared.  Nothing between
/// the two events can interfere: the frame physics never touches audio
/// state or the flag.
pub proof fn lemma_slide_cleanup(
    sides: Seq<Side>,
    disabled: bool,
    id: u64,
    f1: u64,
    f2: u64,
    body_id: u64,
)
    requires
        find_idx(sides, id, SideEffect::Slide) < sides.len(),
    ensures
        ({
            let j = find_idx(sides, id, SideEffect::Slide);
            let st1 = toggle_step(sides, disabled, SideEvent::Activated(id), f1, body_id);
            let st2 = toggle_step(st1.0, st1.1, SideEvent::Deactivated(id), f2, body_id);
            &&& st2.0 == sides.update(j, Side { audio: None, ..sides[j] })
            &&& st2.0[j].audio is None
            &&& st2.2 == seq![AudioCommand::Stop(f1)]
            &&& sides[j].parent == body_id ==> st2.1 == false
        }),
{
    let j = find_idx(sides, id, SideEffect::Slide);
    lemma_find_idx(sides, id, SideEffect::Slide);
    let s = sides[j];
    let s1 = Side { audio: Some(f1), ..s };
    lemma_find_idx_update(sides, id, SideEffect::Slide, s1);
    let st1 = toggle_step(sides, disabled, SideEvent::Activated(id), f1, body_id);
    let st2 = toggle_step(st1.0, st1.1, SideEvent::Deactivated(id), f2, body_id);
    assert(st1.0[j] == s1);
    assert(st2.0 =~= sides.update(j, Side { audio: None, ..s }));
    assert(st2.2 =~= seq![AudioCommand::Stop(f1)]);
}

/// Whether the frame physics acts on this side: active, slide-tagged,
/// sounding, and owned by this body.
pub open spec fn slide_gated(s: Side, body_id: u64) -> bool {
    &&& s.active
    &&& s.effect is Slide
    &&& s.audio is Some
    &&& s.parent == body_id
}

/// The frame physics of the first `n` sides, in order: each gated side
/// adds drag along its rotated outward normal to the body's linear
/// velocity and, under steering input, a tangential steering term, and
/// reports a volume for its stream — the slide speed (the velocity's
/// projection onto the tangent, taken after this side's updates),
/// clamped to one unit.
pub open spec fn slide_fold(
    body: Body,
    sides: Seq<Side>,
    intent: Option<i64>,
    dt: i64,
    n: int,
) -> ((int, int), Seq<(u64, i64)>)
    decreases n,
{
    if n <= 0 {
        ((body.linvel.x as int, body.linvel.y as int), seq![])
    } else {
        let p = slide_fold(body, sides, intent, dt, n - 1);
        let s = sides[n - 1];
        if slide_gated(s, body.id) {
            let dirx = rot_app_x(body.rot, s.local_offset);
            let diry = rot_app_y(body.rot, s.local_offset);
            let vx1 = p.0.0 + div_scale(dirx * dt * DRAG_RATE);
            let vy1 = p.0.1 + div_scale(diry * dt * DRAG_RATE);
            match intent {
                Option::Some(a) => {
                    let mx = -diry;
                    let my = dirx;
                    let vx2 = vx1 + div_scale(mx * dt * a * STEER_RATE);
                    let vy2 = vy1 + div_scale(my * dt * a * STEER_RATE);
                    let vol = clamp_unit(abs_fx(div_scale(vx2 * mx + vy2 * my)));
                    ((vx2, vy2), p.1 + seq![(s.audio.unwrap(), vol as i64)])
                }
                Option::None => ((vx1, vy1), p.1),
            }
        } else {
            p
        }
    }
}

/// Each gated side moves each velocity axis by at most `SLIDE_STEP`, so
/// `n` sides stay within `n * SLIDE_STEP` of the entry velocity.
pub proof fn lemma_slide_fold_bound(body: Body, sides: Seq<Side>, intent: Option<i64>, dt: i64, n: int)
    requires
        body.rot.wf(),
        forall|i: int| 0 <= i < sides.len() ==> (#[trigger] sides[i]).wf(),
        0 <= dt <= DT_LIMIT,
        match intent {
            Option::Some(a) => -1 <= a <= 1,
            Option::None => true,
        },
        0 <= n <= sides.len(),
    ensures
        ({
            let v = slide_fold(body, sides, intent, dt, n).0;
            &&& body.linvel.x - n * SLIDE_STEP <= v.0 <= body.linvel.x + n * SLIDE_STEP
            &&& body.linvel.y - n * SLIDE_STEP <= v.1 <= body.linvel.y + n * SLIDE_STEP
        }),
    decreases n,
{
    if n > 0 {
        lemma_slide_fold_bound(body, sides, intent, dt, n - 1);
        let s = sides[n - 1];
        if slide_gated(s, body.id) {
            let off = s.local_offset;
            let rot = body.rot;
            lemma_abs_mul_le(rot.cos as int, off.x as int, SCALE as int, OFF_LIMIT as int);
            lemma_abs_mul_le(rot.sin as int, off.y as int, SCALE as int, OFF_LIMIT as int);
            lemma_abs_mul_le(rot.sin as int, off.x as int, SCALE as int, OFF_LIMIT as int);
            lemma_abs_mul_le(rot.cos as int, off.y as int, SCALE as int, OFF_LIMIT as int);
            lemma_div_scale_bound(rot.cos * off.x - rot.sin * off.y, 2 * SCALE * OFF_LIMIT);
            lemma_div_scale_bound(rot.sin * off.x + rot.cos * off.y, 2 * SCALE * OFF_LIMIT);
            let dirx = rot_app_x(rot, off);
            let diry = rot_app_y(rot, off);
            lemma_abs_mul_le(dirx, dt as int, 2_000_000, 10_000);
            lemma_abs_mul_le(diry, dt as int, 2_000_000, 10_000);
            lemma_abs_mul_le(dirx * dt, DRAG_RATE as int, 20_000_000_000, 10);
            lemma_abs_mul_le(diry * dt, DRAG_RATE as int, 20_000_000_000, 10);
            lemma_div_scale_bound(dirx * dt * DRAG_RATE, 200_000_000_000);
            lemma_div_scale_bound(diry * dt * DRAG_RATE, 200_000_000_000);
            match intent {
                Option::Some(a) => {
                    lemma_abs_mul_le(-diry, dt as int, 2_000_000, 10_000);
                    lemma_abs_mul_le(-diry * dt, a as int, 20_000_000_000, 1);
                    lemma_abs_mul_le(-diry * dt * a, STEER_RATE as int, 20_000_000_000, 100);
                    lemma_abs_mul_le(dirx * dt, a as int, 20_000_000_000, 1);
                    lemma_abs_mul_le(dirx * dt * a, STEER_RATE as int, 20_000_000_000, 100);
                    lemma_div_scale_bound(-diry * dt * a * STEER_RATE, 2_000_000_000_000);
                    lemma_div_scale_bound(dirx * dt * a * STEER_RATE, 2_000_000_000_000);
                }
                Option::None => {}
            }
        }
        assert(n * SLIDE_STEP == (n - 1) * SLIDE_STEP + SLIDE_STEP) by (nonlinear_arith);
    }
}

/// Runs the slide frame physics over all sides: every active, sounding
/// slide side of this body adds its drag and steering contributions to
/// the body's linear velocity in order, and the returned list pairs each
/// such side's stream handle with its new volume (only under steering
/// input, as the volume follows the steering projection).  Nothing else
/// about the body changes.
pub fn slide_frame(body: &mut Body, sides: &Vec<Side>, intent: Option<i64>, dt: i64) -> (volumes: Vec<
    (u64, i64),
>)
    requires
        old(body).rot.wf(),
        old(body).linvel.bounded(VEL_LIMIT as int),
        forall|i: int| 0 <= i < sides@.len() ==> (#[trigger] sides@[i]).wf(),
        sides@.len() <= MAX_SIDES,
        0 <= dt <= DT_LIMIT,
        match intent {
            Option::Some(a) => -1 <= a <= 1,
            Option::None => true,
        },
    ensures
        ({
            let r = slide_fold(*old(body), sides@, intent, dt, sides@.len() as int);
            &&& final(body).linvel.x == r.0.0
            &&& final(body).linvel.y == r.0.1
            &&& volumes@ == r.1
            &&& *final(body) == (Body { linvel: final(body).linvel, ..*old(body) })
        }),
{
    let rot: Rot2Fx = body.rot;
    let body_id: u64 = body.id;
    let mut vx: i64 = body.linvel.x;
    let mut vy: i64 = body.linvel.y;
    let mut volumes: Vec<(u64, i64)> = Vec::new();
    let mut i: usize = 0;
    while i < sides.len()
        invariant
            i <= sides@.len(),
            sides@.len() <= MAX_SIDES,
            rot == old(body).rot,
            body_id == old(body).id,
            rot.wf(),
            old(body).linvel.bounded(VEL_LIMIT as int),
            forall|k: int| 0 <= k < sides@.len() ==> (#[trigger] sides@[k]).wf(),
            0 <= dt <= DT_LIMIT,
            match intent {
                Option::Some(a) => -1 <= a <= 1,
                Option::None => true,
            },
            ({
                let r = slide_fold(*old(body), sides@, intent, dt, i as int);
                &&& vx == r.0.0
                &&& vy == r.0.1
                &&& volumes@ == r.1
            }),
        decreases sides@.len() - i,
    {
        proof {
            lemma_slide_fold_bound(*old(body), sides@, intent, dt, i as int);
        }
        let s: Side = sides[i];
        if s.active && s.effect == SideEffect::Slide && s.parent == body_id {
            if let Some(h) = s.audio {
                let d: Vec2Fx = rotate(rot, s.local_offset);
                proof {
                    lemma_abs_mul_le(d.x as int, dt as int, 2_000_000, 10_000);
                    lemma_abs_mul_le(d.y as int, dt as int, 2_000_000, 10_000);
                    lemma_div_scale_bound(d.x * dt * DRAG_RATE, 200_000_000_000);
                    lemma_div_scale_bound(d.y * dt * DRAG_RATE, 200_000_000_000);
                }
                vx = vx + div_scale_i64(d.x * dt * DRAG_RATE);
                vy = vy + div_scale_i64(d.y * dt * DRAG_RATE);
                if let Some(a) = intent {
                    let m: Vec2Fx = perp(d);
                    proof {
                        lemma_abs_mul_le(m.x as int, dt as int, 2_000_000, 10_000);
                        lemma_abs_mul_le(m.y as int, dt as int, 2_000_000, 10_000);
                        lemma_abs_mul_le(m.x * dt, a as int, 20_000_000_000, 1);
                        lemma_abs_mul_le(m.y * dt, a as int, 20_000_000_000, 1);
                        lemma_div_scale_bound(m.x * dt * a * STEER_RATE, 2_000_000_000_000);
                        lemma_div_scale_bound(m.y * dt * a * STEER_RATE, 2_000_000_000_000);
                    }
                    vx = vx + div_scale_i64(m.x * dt * a * STEER_RATE);
                    vy = vy + div_scale_i64(m.y * dt * a * STEER_RATE);
                    proof {
                        lemma_abs_mul_le(vx as int, m.x as int, 150_000_000_000, 2_000_000);
                        lemma_abs_mul_le(vy as int, m.y as int, 150_000_000_000, 2_000_000);
                    }
                    let p: i64 = vx * m.x + vy * m.y;
                    let pd: i64 = div_scale_i64(p);
                    let pa: i64 = if pd >= 0 {
                        pd
                    } else {
                        -pd
                    };
                    let vol: i64 = if pa > SCALE {
                        SCALE
                    } else {
                        pa
                    };
                    volumes.push((h, vol));
                    proof {
                        let r = slide_fold(*old(body), sides@, intent, dt, i + 1);
                        assert(volumes@ =~= r.1);
                    }
                }
            }
        }
        i = i + 1;
    }
    body.linvel = Vec2Fx { x: vx, y: vy };
    volumes
}

/// The body's velocity over `n` frames of slide drag on one side with
/// direction `(dirx, diry)`, no steering input, and a fixed frame
/// duration: each frame adds the same drag delta.
pub open spec fn slide_ticks(v0: (int, int), dirx: int, diry: int, dt: i64, n: nat) -> (int, int)
    decreases n,
{
    if n == 0 {
        v0
    } else {
        let p = slide_ticks(v0, dirx, diry, dt, (n - 1) as nat);
        (p.0 + div_scale(dirx * dt * DRAG_RATE), p.1 + div_scale(diry * dt * DRAG_RATE))
    }
}

/// Slide drag accumulates exactly linearly: `n` frames of duration `dt`
/// with no steering input move the velocity by `n` times the per-frame
/// drag delta along the side's direction.
pub proof fn lemma_slide_drag_accumulates(v0: (int, int), dirx: int, diry: int, dt: i64, n: nat)
    ensures
        slide_ticks(v0, dirx, diry, dt, n).0 == v0.0 + n * div_scale(dirx * dt * DRAG_RATE),
        slide_ticks(v0, dirx, diry, dt, n).1 == v0.1 + n * div_scale(diry * dt * DRAG_RATE),
    decreases n,
{
    if n > 0 {
        lemma_slide_drag_accumulates(v0, dirx, diry, dt, (n - 1) as nat);
        let dx = div_scale(dirx * dt * DRAG_RATE);
        let dy = div_scale(diry * dt * DRAG_RATE);
        assert(n * dx == (n - 1) * dx + dx) by (nonlinear_arith);
        assert(n * dy == (n - 1) * dy + dy) by (nonlinear_arith);
    }
}

/// One frame of the physics on a single gated side with no steering
/// input is exactly one `slide_ticks` step for that side's direction.
pub proof fn lemma_one_side_frame_is_tick(body: Body, s: Side, dt: i64)
    requires
        slide_gated(s, body.id),
    ensures
        ({
            let r = slide_fold(body, seq![s], Option::None, dt, 1);
            let dirx = rot_app_x(body.rot, s.local_offset);
            let diry = rot_app_y(body.rot, s.local_offset);
            &&& r.0 == slide_ticks((body.linvel.x as int, body.linvel.y as int), dirx, diry, dt, 1)
            &&& r.1 == Seq::<(u64, i64)>::empty()
        }),
{
    assert(seq![s][0] == s);
    let v0 = (body.linvel.x as int, body.linvel.y as int);
    let dirx = rot_app_x(body.rot, s.local_offset);
    let diry = rot_app_y(body.rot, s.local_offset);
    assert(slide_fold(body, seq![s], Option::<i64>::None, dt, 0) == (v0, Seq::<(u64, i64)>::empty()));
    assert(slide_ticks(v0, dirx, diry, dt, 0) == v0);
    assert(slide_fold(body, seq![s], Option::<i64>::None, dt, 1).1 =~= Seq::<(u64, i64)>::empty());
}

} // verus!
