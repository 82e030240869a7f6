//! Contact classifier.
//!
//! The physics engine reports raw sensor contacts as begin/end events
//! over unordered entity pairs.  The classifier keeps exactly those
//! pairs that join a side sensor with the world trigger region, in
//! either order, and emits the matching semantic event naming the side.
//! A pair touching no trigger, or joining two sides, yields nothing.

use vstd::prelude::*;

verus! {

/// Largest number of events one frame's queues may carry: queues are
/// drained whole every tick, never buffered across ticks.
pub const MAX_EVENTS: usize = 1024;

/// A raw contact transition from the physics engine, naming an
/// unordered entity pair.
#[derive(Clone, Copy, Debug, PartialEq, Eq, Structural)]
pub enum ContactEvent {
    /// The two entities began to overlap.
    Started(u64, u64),
    /// The two entities ceased to overlap.
    Stopped(u64, u64),
}

/// A semantic side event: the named side began or ceased to overlap the
/// world trigger region.
#[derive(Clone, Copy, Debug, PartialEq, Eq, Structural)]
pub enum SideEvent {
    Activated(u64),
    Deactivated(u64),
}

impl SideEvent {
    /// The side the event names.
    pub open spec fn spec_side(self) -> u64 {
        match self {
            SideEvent::Activated(s) => s,
            SideEvent::Deactivated(s) => s,
        }
    }

    /// The side the event names.
    #[verifier::when_used_as_spec(spec_side)]
    pub fn side(self) -> (s: u64)
        ensures
            s == self.spec_side(),
    {
        match self {
            SideEvent::Activated(s) => s,
            SideEvent::Deactivated(s) => s,
        }
    }
}

/// The semantic event for side `s`: activation on a begun contact,
/// deactivation on a ceased one.
pub open spec fn mk_event(s: u64, started: bool) -> SideEvent {
    if started {
        SideEvent::Activated(s)
    } else {
        SideEvent::Deactivated(s)
    }
}

/// Events one ordered reading of a contact pair contributes: one event
/// naming `a` exactly when `a` is a side and `b` is a trigger.
pub open spec fn ordered_events(a: u64, b: u64, started: bool, sides: Seq<u64>, triggers: Seq<u64>) -> Seq<SideEvent> {
    if sides.contains(a) && triggers.contains(b) {
        seq![mk_event(a, started)]
    } else {
        seq![]
    }
}

/// Events one raw contact contributes: both orderings of its pair are
/// tried, so the side is found whichever slot it arrived in.
pub open spec fn contact_events(e: ContactEvent, sides: Seq<u64>, triggers: Seq<u64>) -> Seq<SideEvent> {
    match e {
        ContactEvent::Started(a, b) => ordered_events(a, b, true, sides, triggers) + ordered_events(
            b,
            a,
            true,
            sides,
            triggers,
        ),
        ContactEvent::Stopped(a, b) => ordered_events(a, b, false, sides, triggers)
            + ordered_events(b, a, false, sides, triggers),
    }
}

/// Events a whole frame of raw contacts contributes, in arrival order.
pub open spec fn classify_spec(contacts: Seq<ContactEvent>, sides: Seq<u64>, triggers: Seq<u64>) -> Seq<SideEvent>
    decreases contacts.len(),
{
    if contacts.len() == 0 {
        seq![]
    } else {
        classify_spec(contacts.drop_last(), sides, triggers) + contact_events(
            contacts.last(),
            sides,
            triggers,
        )
    }
}

/// Whether `ids` holds `id`.
pub fn contains_id(ids: &Vec<u64>, id: u64) -> (r: bool)
    ensures
        r == ids@.contains(id),
{
    let mut i: usize = 0;
    while i < ids.len()
        invariant
            i <= ids@.len(),
            forall|j: int| 0 <= j < i ==> ids@[j] != id,
        decreases ids@.len() - i,
    {
        if ids[i] == id {
            return true;
        }
        i = i + 1;
    }
    false
}

/// Turns one frame of raw contacts into semantic side events: for each
/// contact, each ordering of its pair that joins a side with a trigger
/// yields the matching event naming the side; every other pair yields
/// nothing.
pub fn classify_contacts(contacts: &Vec<ContactEvent>, sides: &Vec<u64>, triggers: &Vec<u64>) -> (out: Vec<
    SideEvent,
>)
    ensures
        out@ == classify_spec(contacts@, sides@, triggers@),
{
    let mut out: Vec<SideEvent> = Vec::new();
    let mut i: usize = 0;
    while i < contacts.len()
        invariant
            i <= contacts@.len(),
            out@ == classify_spec(contacts@.take(i as int), sides@, triggers@),
        decreases contacts@.len() - i,
    {
        let (a, b, started): (u64, u64, bool) = match contacts[i] {
            ContactEvent::Started(a, b) => (a, b, true),
            ContactEvent::Stopped(a, b) => (a, b, false),
        };
        if contains_id(sides, a) && contains_id(triggers, b) {
            out.push(if started {
                SideEvent::Activated(a)
            } else {
                SideEvent::Deactivated(a)
            });
        }
        if contains_id(sides, b) && contains_id(triggers, a) {
            out.push(if started {
                SideEvent::Activated(b)
            } else {
                SideEvent::Deactivated(b)
            });
        }
        proof {
            assert(contacts@.take(i + 1).drop_last() =~= contacts@.take(i as int));
            assert(contacts@.take(i + 1).last() == contacts@[i as int]);
            assert(out@ =~= classify_spec(contacts@.take(i + 1), sides@, triggers@));
        }
        i = i + 1;
    }
    proof {
        assert(contacts@.take(contacts@.len() as int) =~= contacts@);
    }
    out
}

/// Each raw contact yields at most two semantic events (one per
/// ordering of its pair), so a frame of `n` contacts yields at most
/// `2 n` events.
pub proof fn lemma_classify_spec_len(contacts: Seq<ContactEvent>, sides: Seq<u64>, triggers: Seq<u64>)
    ensures
        classify_spec(contacts, sides, triggers).len() <= 2 * contacts.len(),
    decreases contacts.len(),
{
    if contacts.len() > 0 {
        lemma_classify_spec_len(contacts.drop_last(), sides, triggers);
    }
}

/// A contact pair touching no trigger yields no semantic event, however
/// the pair is ordered and whatever else its members are.
pub proof fn lemma_no_trigger_no_event(e: ContactEvent, sides: Seq<u64>, triggers: Seq<u64>)
    requires
        match e {
            ContactEvent::Started(a, b) => !triggers.contains(a) && !triggers.contains(b),
            ContactEvent::Stopped(a, b) => !triggers.contains(a) && !triggers.contains(b),
        },
    ensures
        contact_events(e, sides, triggers) == Seq::<SideEvent>::empty(),
{
    match e {
        ContactEvent::Started(a, b) => {
            assert(contact_events(e, sides, triggers) =~= Seq::<SideEvent>::empty());
        }
        ContactEvent::Stopped(a, b) => {
            assert(contact_events(e, sides, triggers) =~= Seq::<SideEvent>::empty());
        }
    }
}

/// A contact pair joining a side with a trigger yields exactly one
/// event, of the contact's direction, naming the side — in whichever
/// order the pair arrived.
pub proof fn lemma_side_trigger_one_event(s: u64, t: u64, started: bool, sides: Seq<u64>, triggers: Seq<u64>)
    requires
        sides.contains(s),
        triggers.contains(t),
        !triggers.contains(s),
        !sides.contains(t),
    ensures
        contact_events(if started { ContactEvent::Started(s, t) } else { ContactEvent::Stopped(s, t) },
            sides, triggers) == seq![mk_event(s, started)],
        contact_events(if started { ContactEvent::Started(t, s) } else { ContactEvent::Stopped(t, s) },
            sides, triggers) == seq![mk_event(s, started)],
{
    if started {
        assert(contact_events(ContactEvent::Started(s, t), sides, triggers) =~= seq![mk_event(s, true)]);
        assert(contact_events(ContactEvent::Started(t, s), sides, triggers) =~= seq![mk_event(s, true)]);
    } else {
        assert(contact_events(ContactEvent::Stopped(s, t), sides, triggers) =~= seq![mk_event(s, false)]);
        assert(contact_events(ContactEvent::Stopped(t, s), sides, triggers) =~= seq![mk_event(s, false)]);
    }
}

} // verus!
