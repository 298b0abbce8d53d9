//! The connection controller's state machine.
//!
//! A [`Session`] tracks the lifecycle Idle -> Connected -> Closed and
//! decides every public operation: whether a connect attempt may touch
//! the transport, which command each submission enqueues, and what
//! close() must tear down. The transport, queue and tasks themselves
//! live outside the library; they consult these decisions and perform
//! exactly the actions returned.
//!
//! The ghost trace `sent` records, in order, every command the
//! controller has handed toward the transport during the current
//! connection: the hello command at connect, then each accepted
//! submission.

use vstd::prelude::*;
use crate::codec::{hello_cmd, Command};
use crate::config::Config;
use crate::error::WirechatError;

verus! {

/// The controller's connection state and its per-connection trace.
pub struct Session {
    pub cfg: Config,
    pub connected: bool,
    pub sent: Ghost<Seq<Command>>,
}

/// Why a connect attempt is rejected, if it is.
pub open spec fn connect_error(s: Session) -> Option<WirechatError> {
    if s.connected {
        Some(WirechatError::AlreadyConnected)
    } else if s.cfg.url@.len() == 0 {
        Some(WirechatError::UrlEmpty)
    } else {
        None
    }
}

/// Why a submission is rejected, if it is.
pub open spec fn submit_error(s: Session) -> Option<WirechatError> {
    if !s.connected {
        Some(WirechatError::NotConnected)
    } else {
        None
    }
}

/// The session invariant: the trace of a connection starts with the
/// hello command of its configuration and holds no other hello.
pub open spec fn session_inv(s: Session) -> bool {
    &&& s.sent@.len() > 0 ==> s.sent@[0] == hello_cmd(s.cfg)
    &&& forall|i: int| 1 <= i < s.sent@.len() ==> !(#[trigger] s.sent@[i] is Hello)
    &&& s.connected ==> s.sent@.len() > 0
}

impl Session {
    /// A fresh, never-connected session over a configuration.
    pub fn new(cfg: Config) -> (s: Session)
        ensures
            s.cfg == cfg,
            !s.connected,
            s.sent@ == Seq::<Command>::empty(),
            session_inv(s),
    {
        Session { cfg, connected: false, sent: Ghost(Seq::empty()) }
    }

    /// Decides a connect attempt. On `Ok` the caller may perform the
    /// transport handshake (bounded by the handshake timeout, or
    /// unbounded if that timeout is zero) and must write the returned
    /// hello command as the very first frame; on `Err` no transport
    /// attempt may occur and the session is unchanged.
    pub fn connect_request(&self) -> (r: Result<Command, WirechatError>)
        ensures
            match connect_error(*self) {
                Some(e) => r == Err::<Command, WirechatError>(e),
                None => r == Ok::<Command, WirechatError>(hello_cmd(self.cfg)),
            },
    {
        if self.connected {
            Err(WirechatError::AlreadyConnected)
        } else if self.cfg.url.as_str().is_empty() {
            Err(WirechatError::UrlEmpty)
        } else {
            Ok(Command::hello(&self.cfg))
        }
    }

    /// Records that the handshake succeeded and the hello command was
    /// written: the session is now connected and its trace holds
    /// exactly that first frame.
    pub fn mark_connected(&mut self)
        requires
            !old(self).connected,
        ensures
            final(self).connected,
            final(self).cfg == old(self).cfg,
            final(self).sent@ == seq![hello_cmd(old(self).cfg)],
            session_inv(*final(self)),
    {
        self.connected = true;
        self.sent = Ghost(Seq::empty().push(hello_cmd(self.cfg)));
    }

    /// Accepts or rejects a join submission; on success the join
    /// command is appended to the trace and must be enqueued.
    pub fn join(&mut self, room: String) -> (r: Result<Command, WirechatError>)
        requires
            session_inv(*old(self)),
        ensures
            session_inv(*final(self)),
            final(self).cfg == old(self).cfg,
            final(self).connected == old(self).connected,
            old(self).connected ==> r == Ok::<Command, WirechatError>(Command::Join { room })
                && final(self).sent@ == old(self).sent@.push(Command::Join { room }),
            !old(self).connected ==> r == Err::<Command, WirechatError>(
                WirechatError::NotConnected,
            ) && final(self).sent@ == old(self).sent@,
    {
        if !self.connected {
            return Err(WirechatError::NotConnected);
        }
        let c = Command::join(room);
        self.sent = Ghost(self.sent@.push(c));
        Ok(c)
    }

    /// Accepts or rejects a leave submission; on success the leave
    /// command is appended to the trace and must be enqueued.
    pub fn leave(&mut self, room: String) -> (r: Result<Command, WirechatError>)
        requires
            session_inv(*old(self)),
        ensures
            session_inv(*final(self)),
            final(self).cfg == old(self).cfg,
            final(self).connected == old(self).connected,
            old(self).connected ==> r == Ok::<Command, WirechatError>(Command::Leave { room })
                && final(self).sent@ == old(self).sent@.push(Command::Leave { room }),
            !old(self).connected ==> r == Err::<Command, WirechatError>(
                WirechatError::NotConnected,
            ) && final(self).sent@ == old(self).sent@,
    {
        if !self.connected {
            return Err(WirechatError::NotConnected);
        }
        let c = Command::leave(room);
        self.sent = Ghost(self.sent@.push(c));
        Ok(c)
    }

    /// Accepts or rejects a message submission; on success the msg
    /// command is appended to the trace and must be enqueued.
    pub fn send(&mut self, room: String, text: String) -> (r: Result<Command, WirechatError>)
        requires
            session_inv(*old(self)),
        ensures
            session_inv(*final(self)),
            final(self).cfg == old(self).cfg,
            final(self).connected == old(self).connected,
            old(self).connected ==> r == Ok::<Command, WirechatError>(Command::Msg { room, text })
                && final(self).sent@ == old(self).sent@.push(Command::Msg { room, text }),
            !old(self).connected ==> r == Err::<Command, WirechatError>(
                WirechatError::NotConnected,
            ) && final(self).sent@ == old(self).sent@,
    {
        if !self.connected {
            return Err(WirechatError::NotConnected);
        }
        let c = Command::msg(room, text);
        self.sent = Ghost(self.sent@.push(c));
        Ok(c)
    }

    /// Ends the session. The result says whether a connection was up:
    /// only then must the caller flip the shutdown signal, drop the
    /// queue and join the pumps; on `false` nothing is to be done and
    /// no event is emitted. Afterwards the session is disconnected
    /// unconditionally.
    pub fn close(&mut self) -> (was_connected: bool)
        requires
            session_inv(*old(self)),
        ensures
            session_inv(*final(self)),
            !final(self).connected,
            final(self).cfg == old(self).cfg,
            final(self).sent@ == old(self).sent@,
            was_connected == old(self).connected,
    {
        let was = self.connected;
        self.connected = false;
        was
    }
}

/// Law: a connected session rejects a second connect with
/// `AlreadyConnected`, whatever its configuration.
pub proof fn lemma_connect_twice(s: Session)
    requires
        s.connected,
    ensures
        connect_error(s) == Some(WirechatError::AlreadyConnected),
{
}

/// Law: a session with an empty endpoint and no connection rejects
/// connect with `UrlEmpty`, so no transport attempt occurs.
pub proof fn lemma_empty_endpoint(s: Session)
    requires
        !s.connected,
        s.cfg.url@.len() == 0,
    ensures
        connect_error(s) == Some(WirechatError::UrlEmpty),
{
}

/// Law: on every connection the first frame handed to the transport is
/// the hello command of the session's configuration, and no later
/// frame is a hello.
pub proof fn lemma_hello_first(s: Session)
    requires
        session_inv(s),
        s.sent@.len() > 0,
    ensures
        s.sent@[0] == hello_cmd(s.cfg),
        forall|i: int| 1 <= i < s.sent@.len() ==> !(#[trigger] s.sent@[i] is Hello),
{
}

/// Law: a session that is not connected rejects every submission with
/// `NotConnected`; in particular every submission after close() fails.
pub proof fn lemma_closed_rejects(s: Session)
    requires
        !s.connected,
    ensures
        submit_error(s) == Some(WirechatError::NotConnected),
{
}

} // verus!
