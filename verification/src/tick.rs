//! One simulation tick.
//!
//! All systems run once per tick in a fixed, deterministic order
//! relative to the physics step: the classifier first, on the contacts
//! the physics engine reported for this tick, then the effect systems
//! on its output, then input control and the camera.  Every event queue
//! is drained whole here and never buffered across ticks.  The caller
//! (the engine shell) performs the returned audio commands and volume
//! settings; nothing here does I/O.

use vstd::prelude::*;
use crate::classify::classify_contacts;
use crate::classify::classify_spec;
use crate::classify::lemma_classify_spec_len;
use crate::classify::ContactEvent;
use crate::classify::SideEvent;
use crate::classify::MAX_EVENTS;
use crate::fixed::Vec2Fx;
use crate::input::camera_follow;
use crate::input::rotation_control;
use crate::input::steer_intent;
use crate::input::steer_intent_spec;
use crate::input::torque_spec;
use crate::jump::jump_effect;
use crate::jump::jump_total;
use crate::jump::lemma_jump_total_bound;
use crate::jump::JUMP_STEP;
use crate::powerup::pickup_fold;
use crate::powerup::powerup_pickup;
use crate::powerup::PickupEvent;
use crate::side::apply_activity;
use crate::side::lemma_activity_changes_only_active;
use crate::side::side_after_events;
use crate::side::Body;
use crate::side::Side;
use crate::side::MAX_SIDES;
use crate::slide::lemma_toggle_changes_only_audio;
use crate::slide::slide_fold;
use crate::slide::slide_frame;
use crate::slide::slide_toggle;
use crate::slide::toggle_fold;
use crate::slide::AudioCommand;
use crate::slide::DT_LIMIT;

verus! {

/// The simulation context: the one body, its sides, the live powerups
/// and the camera, held by explicit reference rather than ambient
/// lookup.
pub struct GameState {
    pub body: Body,
    pub sides: Vec<Side>,
    pub powerups: Vec<u64>,
    pub camera: Vec2Fx,
}

impl GameState {
    /// A well-formed context: the body and every side within the
    /// limits the effect arithmetic needs.
    pub open spec fn wf(self) -> bool {
        &&& self.body.wf()
        &&& forall|i: int| 0 <= i < self.sides@.len() ==> (#[trigger] self.sides@[i]).wf()
        &&& self.sides@.len() <= MAX_SIDES
    }
}

/// The entity identities of the sides, in order.
pub open spec fn ids_of(sides: Seq<Side>) -> Seq<u64> {
    Seq::new(sides.len(), |i: int| sides[i].id)
}

/// Collects the entity identities of the sides.
pub fn side_ids(sides: &Vec<Side>) -> (out: Vec<u64>)
    ensures
        out@ == ids_of(sides@),
{
    let mut out: Vec<u64> = Vec::new();
    let mut i: usize = 0;
    while i < sides.len()
        invariant
            i <= sides@.len(),
            out@.len() == i,
            forall|k: int| 0 <= k < i ==> out@[k] == sides@[k].id,
        decreases sides@.len() - i,
    {
        out.push(sides[i].id);
        i = i + 1;
    }
    proof {
        assert(out@ =~= ids_of(sides@));
    }
    out
}

/// Every side's activity flag driven by a frame of events.
pub open spec fn activity_applied(sides: Seq<Side>, events: Seq<SideEvent>) -> Seq<Side> {
    Seq::new(sides.len(), |i: int| side_after_events(sides[i], events))
}

/// Runs one tick: classifies this tick's raw contacts against the sides
/// and the trigger region, drives the activity flags, toggles the slide
/// lifecycle (one fresh audio handle per event, taken from `fresh` by
/// event position), applies the jump and slide physics, consumes the
/// pickup events, runs rotation control and parks the camera on the
/// body.  Returns the audio commands and the volume settings for the
/// engine to carry out, in order.
pub fn tick(
    state: &mut GameState,
    trigger_ids: &Vec<u64>,
    contacts: &Vec<ContactEvent>,
    pickups: &Vec<PickupEvent>,
    left: bool,
    right: bool,
    dt: i64,
    fresh: &Vec<u64>,
) -> (out: (Vec<AudioCommand>, Vec<(u64, i64)>))
    requires
        old(state).wf(),
        0 <= dt <= DT_LIMIT,
        2 * contacts@.len() <= MAX_EVENTS,
        fresh@.len() >= 2 * contacts@.len(),
    ensures
        ({
            let st0 = *old(state);
            let events = classify_spec(contacts@, ids_of(st0.sides@), trigger_ids@);
            let ne = events.len() as int;
            let sides1 = activity_applied(st0.sides@, events);
            let tg = toggle_fold(
                sides1,
                st0.body.rotation_control_disabled,
                events,
                fresh@,
                st0.body.id,
                ne,
            );
            let body1 = (Body { rotation_control_disabled: tg.1, ..st0.body });
            let jt = jump_total(st0.body.rot, tg.0, events, ne);
            let body2 = (Body {
                impulse: (Vec2Fx {
                    x: (body1.impulse.x + jt.0) as i64,
                    y: (body1.impulse.y + jt.1) as i64,
                }),
                ..body1
            });
            let intent = steer_intent_spec(left, right);
            let sf = slide_fold(body2, tg.0, intent, dt, tg.0.len() as int);
            let body3 = (Body {
                linvel: (Vec2Fx { x: sf.0.0 as i64, y: sf.0.1 as i64 }),
                ..body2
            });
            let pk = pickup_fold(
                tg.0,
                body3.friction,
                st0.powerups@,
                pickups@,
                body3.id,
                pickups@.len() as int,
            );
            let body4 = (Body { friction: pk.1, ..body3 });
            let body5 = if body4.rotation_control_disabled {
                body4
            } else {
                (Body { torque: torque_spec(intent, body4.angvel) as i64, ..body4 })
            };
            &&& final(state).sides@ == pk.0
            &&& final(state).powerups@ == pk.2
            &&& final(state).body == body5
            &&& final(state).camera == body5.position
            &&& out.0@ == tg.2
            &&& out.1@ == sf.1
        }),
{
    let ghost st0 = *old(state);

    // Contact classification, against the sides as they stand at the
    // start of the tick.
    let ids: Vec<u64> = side_ids(&state.sides);
    let events: Vec<SideEvent> = classify_contacts(contacts, &ids, trigger_ids);
    proof {
        lemma_classify_spec_len(contacts@, ids_of(st0.sides@), trigger_ids@);
    }

    // Activity flags follow the semantic events.
    apply_activity(&mut state.sides, &events);
    proof {
        assert forall|i: int| 0 <= i < st0.sides@.len() implies #[trigger] state.sides@[i]
            == (Side { active: state.sides@[i].active, ..st0.sides@[i] }) by {
            lemma_activity_changes_only_active(st0.sides@[i], events@);
        }
        assert(state.sides@ =~= activity_applied(st0.sides@, events@));
    }
    let ghost sides1 = state.sides@;

    // Slide lifecycle: audio streams and the rotation-control flag.
    let cmds: Vec<AudioCommand> = slide_toggle(&mut state.sides, &mut state.body, &events, fresh);
    proof {
        lemma_toggle_changes_only_audio(
            sides1,
            st0.body.rotation_control_disabled,
            events@,
            fresh@,
            st0.body.id,
            events@.len() as int,
        );
        assert(forall|i: int| 0 <= i < state.sides@.len() ==> (#[trigger] state.sides@[i]).wf());
    }

    // Jump impulses for this tick's activations.
    jump_effect(&mut state.body, &state.sides, &events);
    proof {
        lemma_jump_total_bound(st0.body.rot, state.sides@, events@, events@.len() as int);
        assert(events@.len() * JUMP_STEP <= MAX_EVENTS * JUMP_STEP);
    }

    // Slide physics: drag, steering, volumes.
    let intent: Option<i64> = steer_intent(left, right);
    let volumes: Vec<(u64, i64)> = slide_frame(&mut state.body, &state.sides, intent, dt);

    // Powerup pickups.
    powerup_pickup(&mut state.sides, &mut state.body, &mut state.powerups, pickups);

    // Ordinary rotation control, unless a slide suppressed it, and the
    // camera.
    rotation_control(&mut state.body, left, right);
    camera_follow(&mut state.camera, &state.body);

    (cmds, volumes)
}

} // verus!
