//! The event fan-out: broadcast first, then the registered callback.
//!
//! The engine delivers each event to the broadcast channel
//! unconditionally (a publish with no subscribers is discarded, not an
//! error) and then, if a callback is registered for the event's
//! category, to that one callback. The callbacks themselves are held
//! outside the library; [`Callbacks`] records which slots are filled,
//! and [`delivery_plan`] returns the deliveries to perform, in order.

use vstd::prelude::*;
use crate::event::Event;

verus! {

/// Which callback slots have a handler registered.
#[derive(Debug, Clone, Copy, PartialEq, Eq)]
pub struct Callbacks {
    pub on_message: bool,
    pub on_user_joined: bool,
    pub on_user_left: bool,
    pub on_error: bool,
}

impl Callbacks {
    /// No callback registered in any slot.
    pub fn none() -> (r: Self)
        ensures
            !r.on_message && !r.on_user_joined && !r.on_user_left && !r.on_error,
    {
        Callbacks { on_message: false, on_user_joined: false, on_user_left: false, on_error: false }
    }
}

/// One delivery of an event: to the broadcast channel, or to the
/// registered callback of the event's category.
#[derive(Debug, Clone, PartialEq, Eq)]
pub enum Delivery {
    Broadcast(Event),
    Callback(Event),
}

/// Whether a callback is registered for the event's category.
pub open spec fn has_callback(cbs: Callbacks, ev: Event) -> bool {
    match ev {
        Event::Message(_) => cbs.on_message,
        Event::UserJoined(_) => cbs.on_user_joined,
        Event::UserLeft(_) => cbs.on_user_left,
        Event::Error(_) => cbs.on_error,
    }
}

/// The deliveries one event gives rise to: the broadcast first, then
/// the callback if one is registered, both carrying the same event.
pub open spec fn plan_of(ev: Event, cbs: Callbacks) -> Seq<Delivery> {
    if has_callback(cbs, ev) {
        seq![Delivery::Broadcast(ev), Delivery::Callback(ev)]
    } else {
        seq![Delivery::Broadcast(ev)]
    }
}

/// The fan-out plan for one event.
pub fn delivery_plan(ev: &Event, cbs: &Callbacks) -> (p: Vec<Delivery>)
    ensures
        p@ == plan_of(*ev, *cbs),
{
    let mut p: Vec<Delivery> = Vec::new();
    p.push(Delivery::Broadcast(ev.duplicate()));
    let has = match ev {
        Event::Message(_) => cbs.on_message,
        Event::UserJoined(_) => cbs.on_user_joined,
        Event::UserLeft(_) => cbs.on_user_left,
        Event::Error(_) => cbs.on_error,
    };
    if has {
        p.push(Delivery::Callback(ev.duplicate()));
    }
    proof {
        assert(p@ =~= plan_of(*ev, *cbs));
    }
    p
}

/// Law: every plan broadcasts the event exactly once and first; the
/// callback delivery, when a handler is registered, follows it with an
/// identical copy of the event.
pub proof fn lemma_broadcast_before_callback(ev: Event, cbs: Callbacks)
    ensures
        plan_of(ev, cbs)[0] == Delivery::Broadcast(ev),
        plan_of(ev, cbs).len() == if has_callback(cbs, ev) { 2int } else { 1int },
        has_callback(cbs, ev) ==> plan_of(ev, cbs)[1] == Delivery::Callback(ev),
{
}

} // verus!
