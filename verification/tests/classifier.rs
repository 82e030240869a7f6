use platformer_core::classify::classify_contacts;
use platformer_core::classify::ContactEvent;
use platformer_core::classify::SideEvent;

const SIDE: u64 = 10;
const OTHER_SIDE: u64 = 11;
const TRIGGER: u64 = 99;
const BYSTANDER: u64 = 7;

fn sides() -> Vec<u64> {
    vec![SIDE, OTHER_SIDE]
}

fn triggers() -> Vec<u64> {
    vec![TRIGGER]
}

#[test]
fn started_side_trigger_activates_the_side() {
    let out = classify_contacts(&vec![ContactEvent::Started(SIDE, TRIGGER)], &sides(), &triggers());
    assert_eq!(out, vec![SideEvent::Activated(SIDE)]);
}

#[test]
fn pair_order_does_not_matter() {
    let out = classify_contacts(&vec![ContactEvent::Started(TRIGGER, SIDE)], &sides(), &triggers());
    assert_eq!(out, vec![SideEvent::Activated(SIDE)]);
}

#[test]
fn stopped_side_trigger_deactivates_the_side() {
    let out = classify_contacts(&vec![ContactEvent::Stopped(TRIGGER, SIDE)], &sides(), &triggers());
    assert_eq!(out, vec![SideEvent::Deactivated(SIDE)]);
}

#[test]
fn pair_without_trigger_emits_nothing() {
    let out = classify_contacts(
        &vec![ContactEvent::Started(SIDE, BYSTANDER), ContactEvent::Started(SIDE, OTHER_SIDE)],
        &sides(),
        &triggers(),
    );
    assert_eq!(out, vec![]);
}

#[test]
fn pair_of_two_bystanders_emits_nothing() {
    let out = classify_contacts(&vec![ContactEvent::Stopped(BYSTANDER, 8)], &sides(), &triggers());
    assert_eq!(out, vec![]);
}

#[test]
fn several_sides_activate_independently_in_order() {
    let out = classify_contacts(
        &vec![
            ContactEvent::Started(SIDE, TRIGGER),
            ContactEvent::Started(BYSTANDER, 8),
            ContactEvent::Started(TRIGGER, OTHER_SIDE),
            ContactEvent::Stopped(SIDE, TRIGGER),
        ],
        &sides(),
        &triggers(),
    );
    assert_eq!(
        out,
        vec![
            SideEvent::Activated(SIDE),
            SideEvent::Activated(OTHER_SIDE),
            SideEvent::Deactivated(SIDE),
        ]
    );
}
