use platformer_core::classify::ContactEvent;
use platformer_core::fixed::Rot2Fx;
use platformer_core::fixed::Vec2Fx;
use platformer_core::fixed::SCALE;
use platformer_core::side::Body;
use platformer_core::side::Side;
use platformer_core::side::SideEffect;
use platformer_core::side::SideVisual;
use platformer_core::slide::AudioCommand;
use platformer_core::tick::tick;
use platformer_core::tick::GameState;

const BODY_ID: u64 = 1;
const TRIGGER_ID: u64 = 2;
const SIDE_ID: u64 = 3;

fn state(effect: SideEffect) -> GameState {
    GameState {
        body: Body {
            id: BODY_ID,
            position: Vec2Fx { x: 1500, y: 2500 },
            rot: Rot2Fx { cos: SCALE, sin: 0 },
            linvel: Vec2Fx { x: 0, y: 0 },
            angvel: 0,
            impulse: Vec2Fx { x: 0, y: 0 },
            torque: 0,
            friction: 1500,
            rotation_control_disabled: false,
        },
        sides: vec![Side {
            id: SIDE_ID,
            parent: BODY_ID,
            local_offset: Vec2Fx { x: 0, y: SCALE },
            local_rot: Rot2Fx { cos: SCALE, sin: 0 },
            effect,
            active: false,
            audio: None,
            collider_half: Vec2Fx { x: 500, y: 100 },
            sprite_size: Vec2Fx { x: 1000, y: 1000 },
            visual: SideVisual::Base,
        }],
        powerups: vec![],
        camera: Vec2Fx { x: 0, y: 0 },
    }
}

#[test]
fn a_tick_with_a_touch_fires_the_jump() {
    let mut st = state(SideEffect::Jump);
    let (cmds, vols) = tick(
        &mut st,
        &vec![TRIGGER_ID],
        &vec![ContactEvent::Started(SIDE_ID, TRIGGER_ID)],
        &vec![],
        false,
        false,
        16,
        &vec![7, 8],
    );
    assert_eq!(st.body.impulse, Vec2Fx { x: 0, y: 100 * SCALE });
    assert!(st.sides[0].active);
    assert_eq!(cmds, vec![]);
    assert_eq!(vols, vec![]);
    assert_eq!(st.camera, st.body.position);
    assert_eq!(st.body.torque, 0);
}

#[test]
fn a_tick_with_a_touch_starts_the_slide() {
    let mut st = state(SideEffect::Slide);
    let (cmds, vols) = tick(
        &mut st,
        &vec![TRIGGER_ID],
        &vec![ContactEvent::Started(SIDE_ID, TRIGGER_ID)],
        &vec![],
        false,
        false,
        16,
        &vec![7, 8],
    );
    // The slide activates, sounds, suppresses rotation control, and its
    // drag already acts within the same tick.
    assert_eq!(cmds, vec![AudioCommand::PlayLoop(7)]);
    assert_eq!(st.sides[0].audio, Some(7));
    assert!(st.body.rotation_control_disabled);
    assert_eq!(st.body.linvel, Vec2Fx { x: 0, y: 160 });
    assert_eq!(st.body.impulse, Vec2Fx { x: 0, y: 0 });
    assert_eq!(vols, vec![]);
}

#[test]
fn a_later_tick_ends_the_slide() {
    let mut st = state(SideEffect::Slide);
    tick(
        &mut st,
        &vec![TRIGGER_ID],
        &vec![ContactEvent::Started(SIDE_ID, TRIGGER_ID)],
        &vec![],
        false,
        false,
        16,
        &vec![7, 8],
    );
    let (cmds, _) = tick(
        &mut st,
        &vec![TRIGGER_ID],
        &vec![ContactEvent::Stopped(SIDE_ID, TRIGGER_ID)],
        &vec![],
        false,
        false,
        16,
        &vec![9, 10],
    );
    assert_eq!(cmds, vec![AudioCommand::Stop(7)]);
    assert_eq!(st.sides[0].audio, None);
    assert!(!st.sides[0].active);
    assert!(!st.body.rotation_control_disabled);
}

#[test]
fn a_quiet_tick_only_steers_and_follows() {
    let mut st = state(SideEffect::Jump);
    let (cmds, vols) = tick(&mut st, &vec![TRIGGER_ID], &vec![], &vec![], true, false, 16, &vec![]);
    assert_eq!(cmds, vec![]);
    assert_eq!(vols, vec![]);
    assert_eq!(st.body.impulse, Vec2Fx { x: 0, y: 0 });
    assert_eq!(st.body.torque, 6283 * 10);
    assert_eq!(st.camera, st.body.position);
}
