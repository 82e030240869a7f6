use platformer_core::classify::SideEvent;
use platformer_core::fixed::Rot2Fx;
use platformer_core::fixed::Vec2Fx;
use platformer_core::fixed::SCALE;
use platformer_core::jump::jump_effect;
use platformer_core::powerup::powerup_pickup;
use platformer_core::powerup::PickupEvent;
use platformer_core::side::apply_activity;
use platformer_core::side::side_world_position;
use platformer_core::side::side_world_rot;
use platformer_core::side::Body;
use platformer_core::side::Side;
use platformer_core::side::SideEffect;
use platformer_core::side::SideVisual;
use platformer_core::slide::slide_frame;
use platformer_core::slide::slide_toggle;
use platformer_core::slide::AudioCommand;

const BODY_ID: u64 = 1;
const SIDE_ID: u64 = 10;

fn body() -> Body {
    Body {
        id: BODY_ID,
        position: Vec2Fx::zero(),
        rot: Rot2Fx::identity(),
        linvel: Vec2Fx::zero(),
        angvel: 0,
        impulse: Vec2Fx { x: 0, y: 0 },
        torque: 0,
        friction: 1500,
        rotation_control_disabled: false,
    }
}

fn side(effect: SideEffect) -> Side {
    Side {
        id: SIDE_ID,
        parent: BODY_ID,
        // One player radius straight up: the top face of a unit body.
        local_offset: Vec2Fx { x: 0, y: SCALE },
        local_rot: Rot2Fx { cos: SCALE, sin: 0 },
        effect,
        active: false,
        audio: None,
        collider_half: Vec2Fx { x: 500, y: 100 },
        sprite_size: Vec2Fx { x: 1000, y: 1000 },
        visual: SideVisual::Base,
    }
}

#[test]
fn jump_activation_adds_impulse_along_the_up_normal() {
    // Offset (0, 1) unit at identity rotation: impulse (0, 100) units,
    // exactly once for the one activation.
    let mut b = body();
    let sides = vec![side(SideEffect::Jump)];
    jump_effect(&mut b, &sides, &vec![SideEvent::Activated(SIDE_ID)]);
    assert_eq!(b.impulse, Vec2Fx { x: 0, y: 100 * SCALE });
}

#[test]
fn jump_deactivation_adds_nothing() {
    let mut b = body();
    let sides = vec![side(SideEffect::Jump)];
    jump_effect(&mut b, &sides, &vec![SideEvent::Deactivated(SIDE_ID)]);
    assert_eq!(b.impulse, Vec2Fx { x: 0, y: 0 });
}

#[test]
fn jump_events_accumulate_additively() {
    let mut b = body();
    let sides = vec![side(SideEffect::Jump)];
    jump_effect(
        &mut b,
        &sides,
        &vec![SideEvent::Activated(SIDE_ID), SideEvent::Activated(SIDE_ID)],
    );
    assert_eq!(b.impulse, Vec2Fx { x: 0, y: 200 * SCALE });
}

#[test]
fn jump_ignores_sides_without_the_jump_tag() {
    let mut b = body();
    let sides = vec![side(SideEffect::Slide)];
    jump_effect(&mut b, &sides, &vec![SideEvent::Activated(SIDE_ID)]);
    assert_eq!(b.impulse, Vec2Fx { x: 0, y: 0 });
}

#[test]
fn activity_follows_the_last_event_for_each_side() {
    let mut sides = vec![side(SideEffect::Jump), side(SideEffect::Slide)];
    sides[1].id = SIDE_ID + 1;
    apply_activity(
        &mut sides,
        &vec![
            SideEvent::Activated(SIDE_ID),
            SideEvent::Activated(SIDE_ID + 1),
            SideEvent::Deactivated(SIDE_ID),
        ],
    );
    assert!(!sides[0].active);
    assert!(sides[1].active);
}

#[test]
fn slide_activation_starts_audio_and_disables_rotation_control() {
    let mut sides = vec![side(SideEffect::Slide)];
    let mut b = body();
    let cmds = slide_toggle(&mut sides, &mut b, &vec![SideEvent::Activated(SIDE_ID)], &vec![41]);
    assert_eq!(cmds, vec![AudioCommand::PlayLoop(41)]);
    assert_eq!(sides[0].audio, Some(41));
    assert!(b.rotation_control_disabled);
}

#[test]
fn slide_activation_replaces_an_existing_stream() {
    let mut sides = vec![side(SideEffect::Slide)];
    sides[0].audio = Some(3);
    let mut b = body();
    let cmds = slide_toggle(&mut sides, &mut b, &vec![SideEvent::Activated(SIDE_ID)], &vec![41]);
    assert_eq!(cmds, vec![AudioCommand::Stop(3), AudioCommand::PlayLoop(41)]);
    assert_eq!(sides[0].audio, Some(41));
}

#[test]
fn slide_activate_then_deactivate_leaves_no_audio_and_control_restored() {
    // However many frames pass between the two events, the frame
    // physics never touches audio state or the control flag, so the
    // pair alone decides the outcome.
    let mut sides = vec![side(SideEffect::Slide)];
    let mut b = body();
    let first = slide_toggle(&mut sides, &mut b, &vec![SideEvent::Activated(SIDE_ID)], &vec![41]);
    let second = slide_toggle(&mut sides, &mut b, &vec![SideEvent::Deactivated(SIDE_ID)], &vec![0]);
    assert_eq!(first, vec![AudioCommand::PlayLoop(41)]);
    assert_eq!(second, vec![AudioCommand::Stop(41)]);
    assert_eq!(sides[0].audio, None);
    assert!(!b.rotation_control_disabled);
}

#[test]
fn slide_toggle_ignores_events_for_other_effects() {
    let mut sides = vec![side(SideEffect::Jump)];
    let mut b = body();
    let cmds = slide_toggle(&mut sides, &mut b, &vec![SideEvent::Activated(SIDE_ID)], &vec![41]);
    assert_eq!(cmds, vec![]);
    assert_eq!(sides[0].audio, None);
    assert!(!b.rotation_control_disabled);
}

fn gated_slide_side() -> Side {
    let mut s = side(SideEffect::Slide);
    s.active = true;
    s.audio = Some(41);
    s
}

#[test]
fn slide_drag_accumulates_linearly_over_frames() {
    // Direction (0, 1) unit, dt = 0.016 s: each frame adds
    // 1000 * 16 * 10 / 1000 = 160 subunits of upward velocity.
    let mut b = body();
    let sides = vec![gated_slide_side()];
    for _ in 0..3 {
        let vols = slide_frame(&mut b, &sides, None, 16);
        assert_eq!(vols, vec![]);
    }
    assert_eq!(b.linvel, Vec2Fx { x: 0, y: 3 * 160 });
}

#[test]
fn slide_steering_adds_tangential_velocity_and_reports_volume() {
    // Tangent of (0, 1000) is (-1000, 0); intent +1 over dt = 0.016 s
    // adds -1000 * 16 * 100 / 1000 = -1600 subunits of x velocity.  The
    // projection onto the tangent is 1600 subunits, clamped to one unit.
    let mut b = body();
    let sides = vec![gated_slide_side()];
    let vols = slide_frame(&mut b, &sides, Some(1), 16);
    assert_eq!(b.linvel, Vec2Fx { x: -1600, y: 160 });
    assert_eq!(vols, vec![(41, SCALE)]);
}

#[test]
fn slide_frame_skips_inactive_and_foreign_sides() {
    let mut inactive = gated_slide_side();
    inactive.active = false;
    let mut foreign = gated_slide_side();
    foreign.parent = BODY_ID + 1;
    let mut b = body();
    let vols = slide_frame(&mut b, &vec![inactive, foreign], Some(1), 16);
    assert_eq!(b.linvel, Vec2Fx { x: 0, y: 0 });
    assert_eq!(vols, vec![]);
}

#[test]
fn pickup_upgrades_a_blank_side_and_consumes_the_powerup() {
    let mut sides = vec![side(SideEffect::Blank)];
    let mut b = body();
    let mut powerups = vec![42];
    powerup_pickup(
        &mut sides,
        &mut b,
        &mut powerups,
        &vec![PickupEvent { side: SIDE_ID, powerup: 42 }],
    );
    assert_eq!(sides[0].effect, SideEffect::Slide);
    assert_eq!(sides[0].collider_half, Vec2Fx { x: 400, y: 100 });
    assert_eq!(sides[0].sprite_size, Vec2Fx { x: 1000, y: 250 });
    assert_eq!(sides[0].visual, SideVisual::SlideEffect);
    assert_eq!(powerups, vec![]);
    assert_eq!(b.friction, 0);
}

#[test]
fn pickup_is_a_noop_on_a_non_blank_side() {
    let mut sides = vec![side(SideEffect::Slide)];
    let mut b = body();
    let mut powerups = vec![42];
    powerup_pickup(
        &mut sides,
        &mut b,
        &mut powerups,
        &vec![PickupEvent { side: SIDE_ID, powerup: 42 }],
    );
    assert_eq!(sides[0].effect, SideEffect::Slide);
    assert_eq!(powerups, vec![42]);
    assert_eq!(b.friction, 1500);
}

#[test]
fn pickup_is_a_noop_without_a_live_powerup() {
    let mut sides = vec![side(SideEffect::Blank)];
    let mut b = body();
    let mut powerups = vec![43];
    powerup_pickup(
        &mut sides,
        &mut b,
        &mut powerups,
        &vec![PickupEvent { side: SIDE_ID, powerup: 42 }],
    );
    assert_eq!(sides[0].effect, SideEffect::Blank);
    assert_eq!(powerups, vec![43]);
    assert_eq!(b.friction, 1500);
}

#[test]
fn pickup_twice_only_works_once() {
    // The second event finds the side already upgraded: no transition,
    // no despawn of the remaining powerup.
    let mut sides = vec![side(SideEffect::Blank)];
    let mut b = body();
    let mut powerups = vec![42, 43];
    powerup_pickup(
        &mut sides,
        &mut b,
        &mut powerups,
        &vec![
            PickupEvent { side: SIDE_ID, powerup: 42 },
            PickupEvent { side: SIDE_ID, powerup: 43 },
        ],
    );
    assert_eq!(sides[0].effect, SideEffect::Slide);
    assert_eq!(powerups, vec![43]);
}

#[test]
fn side_world_position_follows_the_body() {
    let mut b = body();
    b.position = Vec2Fx { x: 5000, y: 2000 };
    let p = side_world_position(&b, &side(SideEffect::Blank));
    assert_eq!(p, Vec2Fx { x: 5000, y: 3000 });
}

#[test]
fn side_world_position_turns_with_the_body() {
    // A quarter turn counter-clockwise sends the up offset to the left.
    let mut b = body();
    b.rot = Rot2Fx { cos: 0, sin: SCALE };
    let p = side_world_position(&b, &side(SideEffect::Blank));
    assert_eq!(p, Vec2Fx { x: -SCALE, y: 0 });
}

#[test]
fn side_world_rotation_follows_an_identity_local_rotation_exactly() {
    let mut b = body();
    b.rot = Rot2Fx { cos: 0, sin: SCALE };
    let r = side_world_rot(&b, &side(SideEffect::Blank));
    assert_eq!(r, Rot2Fx { cos: 0, sin: SCALE });
}

#[test]
fn side_world_rotation_composes_quarter_turns_into_a_half_turn() {
    let mut b = body();
    b.rot = Rot2Fx { cos: 0, sin: SCALE };
    let mut s = side(SideEffect::Blank);
    s.local_rot = Rot2Fx { cos: 0, sin: SCALE };
    let r = side_world_rot(&b, &s);
    assert_eq!(r, Rot2Fx { cos: -SCALE, sin: 0 });
}
