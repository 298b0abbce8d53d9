//! Domain events delivered to subscribers and callbacks.

use vstd::prelude::*;
use crate::error::WirechatError;

verus! {

/// A chat message received in a room.
#[derive(Debug, Clone, PartialEq, Eq)]
pub struct MessageEvent {
    pub room: String,
    pub user: String,
    pub text: String,
    pub ts: i64,
}

/// A user joining or leaving a room.
#[derive(Debug, Clone, PartialEq, Eq)]
pub struct UserEvent {
    pub room: String,
    pub user: String,
}

/// The closed set of events the engine can deliver.
#[derive(Debug, Clone, PartialEq, Eq)]
pub enum Event {
    Message(MessageEvent),
    UserJoined(UserEvent),
    UserLeft(UserEvent),
    Error(WirechatError),
}

impl MessageEvent {
    /// An equal copy of the event.
    pub fn duplicate(&self) -> (r: Self)
        ensures
            r == *self,
    {
        MessageEvent {
            room: self.room.clone(),
            user: self.user.clone(),
            text: self.text.clone(),
            ts: self.ts,
        }
    }
}

impl UserEvent {
    /// An equal copy of the event.
    pub fn duplicate(&self) -> (r: Self)
        ensures
            r == *self,
    {
        UserEvent { room: self.room.clone(), user: self.user.clone() }
    }
}

impl Event {
    /// An equal copy of the event.
    pub fn duplicate(&self) -> (r: Self)
        ensures
            r == *self,
    {
        match self {
            Event::Message(ev) => Event::Message(ev.duplicate()),
            Event::UserJoined(ev) => Event::UserJoined(ev.duplicate()),
            Event::UserLeft(ev) => Event::UserLeft(ev.duplicate()),
            Event::Error(e) => Event::Error(e.duplicate()),
        }
    }
}

} // verus!
