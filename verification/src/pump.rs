//! The decisions of the two transport pumps.
//!
//! The pumps themselves are concurrent loops around the transport; the
//! library decides each of their steps. The inbound pump hands every
//! observation (a frame, an idle timeout, the shutdown signal, an end
//! of stream, a transport error) to [`read_step`] and obeys the
//! returned decision: deliver the event, if any, and stop or continue.
//! The outbound pump asks [`write_step`] what to write and
//! [`write_result_step`] what a write outcome means.
//!
//! Policy on malformed inbound frames: every decode or protocol error
//! is reported as an error event and the inbound pump continues; only
//! the shutdown signal, the peer's close, the end of the stream and
//! transport-level read errors terminate it.

use vstd::prelude::*;
use crate::codec::{cmd_text, encode_command, Command};
use crate::decode::{
    int_field, parse_frame, parse_frame_text, str_eq, str_field, Frame, FrameV, PVal, Payload,
};
use crate::error::WirechatError;
use crate::event::{Event, MessageEvent, UserEvent};

verus! {

/// The message-event fields of a payload, if well formed.
pub open spec fn msg_fields(es: Seq<(Seq<char>, PVal)>) -> Option<
    (Seq<char>, Seq<char>, Seq<char>, int),
> {
    match (str_field(es, "room"@), str_field(es, "user"@), str_field(es, "text"@), int_field(
        es,
        "ts"@,
    )) {
        (Some(room), Some(user), Some(text), Some(ts)) => Some((room, user, text, ts)),
        _ => None,
    }
}

/// The user-event fields of a payload, if well formed.
pub open spec fn user_fields(es: Seq<(Seq<char>, PVal)>) -> Option<(Seq<char>, Seq<char>)> {
    match (str_field(es, "room"@), str_field(es, "user"@)) {
        (Some(room), Some(user)) => Some((room, user)),
        _ => None,
    }
}

/// The server-error fields of a payload, if well formed.
pub open spec fn err_fields(es: Seq<(Seq<char>, PVal)>) -> Option<(Seq<char>, Seq<char>)> {
    match (str_field(es, "code"@), str_field(es, "msg"@)) {
        (Some(code), Some(msg)) => Some((code, msg)),
        _ => None,
    }
}

/// The message event a payload denotes, if well formed.
fn msg_event_of(p: &Payload) -> (r: Option<MessageEvent>)
    ensures
        match msg_fields(p@) {
            Some((room, user, text, ts)) => r matches Some(ev) && ev.room@ == room && ev.user@
                == user && ev.text@ == text && ev.ts as int == ts,
            None => r is None,
        },
{
    let room = p.get_str("room");
    let user = p.get_str("user");
    let text = p.get_str("text");
    let ts = p.get_int("ts");
    match (room, user, text, ts) {
        (Some(room), Some(user), Some(text), Some(ts)) => Some(
            MessageEvent { room, user, text, ts },
        ),
        _ => None,
    }
}

/// The user event a payload denotes, if well formed.
fn user_event_of(p: &Payload) -> (r: Option<UserEvent>)
    ensures
        match user_fields(p@) {
            Some((room, user)) => r matches Some(ev) && ev.room@ == room && ev.user@ == user,
            None => r is None,
        },
{
    let room = p.get_str("room");
    let user = p.get_str("user");
    match (room, user) {
        (Some(room), Some(user)) => Some(UserEvent { room, user }),
        _ => None,
    }
}

/// The server error a payload denotes, if well formed.
fn server_error_of(p: &Payload) -> (r: Option<WirechatError>)
    ensures
        match err_fields(p@) {
            Some((code, msg)) => r matches Some(WirechatError::Server { code: c, message: m })
                && c@ == code && m@ == msg,
            None => r is None,
        },
{
    let code = p.get_str("code");
    let msg = p.get_str("msg");
    match (code, msg) {
        (Some(code), Some(msg)) => Some(WirechatError::Server { code, message: msg }),
        _ => None,
    }
}

/// What the inbound pump must emit for a parsed frame: exactly one
/// event, pinned per frame shape.
pub open spec fn classified_ok(fv: FrameV, r: Event) -> bool {
    if fv.typ == "event"@ {
        match fv.event {
            None => r matches Event::Error(WirechatError::Protocol(m)) && m@
                == "missing event name"@,
            Some(name) => match fv.data {
                None => r matches Event::Error(WirechatError::Protocol(m)) && m@
                    == "missing event payload"@,
                Some(p) => if name == "message"@ {
                    match msg_fields(p) {
                        Some((room, user, text, ts)) => r matches Event::Message(ev) && ev.room@
                            == room && ev.user@ == user && ev.text@ == text && ev.ts as int == ts,
                        None => r matches Event::Error(WirechatError::Serde(m)) && m@
                            == "malformed event payload"@,
                    }
                } else if name == "user_joined"@ {
                    match user_fields(p) {
                        Some((room, user)) => r matches Event::UserJoined(ev) && ev.room@ == room
                            && ev.user@ == user,
                        None => r matches Event::Error(WirechatError::Serde(m)) && m@
                            == "malformed event payload"@,
                    }
                } else if name == "user_left"@ {
                    match user_fields(p) {
                        Some((room, user)) => r matches Event::UserLeft(ev) && ev.room@ == room
                            && ev.user@ == user,
                        None => r matches Event::Error(WirechatError::Serde(m)) && m@
                            == "malformed event payload"@,
                    }
                } else {
                    r matches Event::Error(WirechatError::Protocol(m)) && m@ == "unknown event: "@
                        + name
                },
            },
        }
    } else if fv.typ == "error"@ {
        match fv.error {
            Some(p) => match err_fields(p) {
                Some((code, msg)) => r matches Event::Error(
                    WirechatError::Server { code: c, message: m },
                ) && c@ == code && m@ == msg,
                None => r matches Event::Error(WirechatError::Serde(m)) && m@
                    == "malformed error payload"@,
            },
            None => r matches Event::Error(WirechatError::Protocol(m)) && m@
                == "missing error payload"@,
        }
    } else {
        r matches Event::Error(WirechatError::Protocol(m)) && m@ == "unexpected outbound type: "@
            + fv.typ
    }
}

/// Turns one parsed frame into the single event to deliver.
pub fn classify_frame(f: &Frame) -> (r: Event)
    ensures
        classified_ok(f@, r),
{
    if str_eq(f.typ.as_str(), "event") {
        match &f.event {
            None => Event::Error(WirechatError::Protocol(String::from_str("missing event name"))),
            Some(name) => match &f.data {
                None => Event::Error(
                    WirechatError::Protocol(String::from_str("missing event payload")),
                ),
                Some(p) => {
                    if str_eq(name.as_str(), "message") {
                        match msg_event_of(p) {
                            Some(ev) => Event::Message(ev),
                            None => Event::Error(
                                WirechatError::Serde(String::from_str("malformed event payload")),
                            ),
                        }
                    } else if str_eq(name.as_str(), "user_joined") {
                        match user_event_of(p) {
                            Some(ev) => Event::UserJoined(ev),
                            None => Event::Error(
                                WirechatError::Serde(String::from_str("malformed event payload")),
                            ),
                        }
                    } else if str_eq(name.as_str(), "user_left") {
                        match user_event_of(p) {
                            Some(ev) => Event::UserLeft(ev),
                            None => Event::Error(
                                WirechatError::Serde(String::from_str("malformed event payload")),
                            ),
                        }
                    } else {
                        Event::Error(
                            WirechatError::Protocol(
                                String::from_str("unknown event: ").concat(name.as_str()),
                            ),
                        )
                    }
                },
            },
        }
    } else if str_eq(f.typ.as_str(), "error") {
        match &f.error {
            Some(p) => match server_error_of(p) {
                Some(e) => Event::Error(e),
                None => Event::Error(
                    WirechatError::Serde(String::from_str("malformed error payload")),
                ),
            },
            None => Event::Error(WirechatError::Protocol(String::from_str("missing error payload"))),
        }
    } else {
        Event::Error(
            WirechatError::Protocol(
                String::from_str("unexpected outbound type: ").concat(f.typ.as_str()),
            ),
        )
    }
}

/// One observation of the inbound pump: the winner of the race between
/// the shutdown signal, the idle timer and the transport read.
#[derive(Debug, Clone, PartialEq, Eq)]
pub enum ReadInput {
    ShutdownFired,
    IdleTimeout,
    EndOfStream,
    CloseFrame,
    ControlFrame,
    Frame(String),
    TransportError(String),
}

/// A pump decision: the event to deliver, if any, and whether the
/// pump's loop terminates.
#[derive(Debug, Clone, PartialEq, Eq)]
pub struct PumpStep {
    pub emit: Option<Event>,
    pub stop: bool,
}

/// What the inbound pump does on one observation. An idle timeout is
/// benign: no event, the loop continues. Shutdown, the peer's close
/// and the end of the stream stop the loop silently; a transport read
/// error emits one error event and stops it; a text frame emits
/// exactly one event and the loop continues.
pub fn read_step(input: ReadInput) -> (r: PumpStep)
    ensures
        input is ShutdownFired ==> r.emit is None && r.stop,
        input is EndOfStream ==> r.emit is None && r.stop,
        input is CloseFrame ==> r.emit is None && r.stop,
        input is IdleTimeout ==> r.emit is None && !r.stop,
        input is ControlFrame ==> r.emit is None && !r.stop,
        input matches ReadInput::TransportError(m) ==> r.stop && (r.emit matches Some(
            Event::Error(WirechatError::WebSocket(w)),
        ) && w@ == m@),
        input matches ReadInput::Frame(t) ==> !r.stop && (match parse_frame(t@) {
            Some(fv) => r.emit matches Some(ev) && classified_ok(fv, ev),
            None => r.emit matches Some(Event::Error(WirechatError::Serde(w))) && w@
                == "invalid frame"@,
        }),
{
    match input {
        ReadInput::ShutdownFired => PumpStep { emit: None, stop: true },
        ReadInput::EndOfStream => PumpStep { emit: None, stop: true },
        ReadInput::CloseFrame => PumpStep { emit: None, stop: true },
        ReadInput::IdleTimeout => PumpStep { emit: None, stop: false },
        ReadInput::ControlFrame => PumpStep { emit: None, stop: false },
        ReadInput::TransportError(m) => PumpStep {
            emit: Some(Event::Error(WirechatError::WebSocket(m))),
            stop: true,
        },
        ReadInput::Frame(t) => match parse_frame_text(t.as_str()) {
            Some(f) => PumpStep { emit: Some(classify_frame(&f)), stop: false },
            None => PumpStep {
                emit: Some(Event::Error(WirechatError::Serde(String::from_str("invalid frame")))),
                stop: false,
            },
        },
    }
}

/// One observation of the outbound pump: the winner of the race
/// between the shutdown signal and the command queue.
#[derive(Debug, Clone, PartialEq, Eq)]
pub enum WriteInput {
    ShutdownFired,
    QueueClosed,
    Next(Command),
}

/// The outbound pump's decision: write this text, or tear down (send
/// the close frame best-effort and close the sink).
#[derive(Debug, Clone, PartialEq, Eq)]
pub enum WriteAction {
    Send(String),
    Teardown,
}

/// What the outbound pump does on one observation: shutdown or a
/// closed queue ends the loop with teardown; a command is written as
/// its encoded frame.
pub fn write_step(input: &WriteInput) -> (r: WriteAction)
    ensures
        input is ShutdownFired ==> r is Teardown,
        input is QueueClosed ==> r is Teardown,
        input matches WriteInput::Next(c) ==> r matches WriteAction::Send(t) && t@ == cmd_text(*c),
{
    match input {
        WriteInput::ShutdownFired => WriteAction::Teardown,
        WriteInput::QueueClosed => WriteAction::Teardown,
        WriteInput::Next(c) => WriteAction::Send(encode_command(c)),
    }
}

/// What a write outcome means for the outbound pump: success continues
/// the loop with nothing emitted; a failure (a write timeout among
/// them) emits exactly that one error event and stops the pump.
pub fn write_result_step(res: Result<(), WirechatError>) -> (r: PumpStep)
    ensures
        res is Ok ==> r.emit is None && !r.stop,
        res matches Err(e) ==> r.stop && r.emit == Some(Event::Error(e)),
{
    match res {
        Ok(()) => PumpStep { emit: None, stop: false },
        Err(e) => PumpStep { emit: Some(Event::Error(e)), stop: true },
    }
}

/// The frames the outbound pump writes over a run of observations:
/// each command in turn, cut short by the first shutdown or queue
/// closure.
pub open spec fn pump_outputs(inputs: Seq<WriteInput>) -> Seq<Command>
    decreases inputs.len(),
{
    if inputs.len() == 0 {
        Seq::<Command>::empty()
    } else {
        match inputs[0] {
            WriteInput::Next(c) => seq![c] + pump_outputs(inputs.skip(1)),
            _ => Seq::<Command>::empty(),
        }
    }
}

/// Law: commands drained from the queue in submission order are
/// written to the transport in that same order, none lost and none
/// reordered, as long as no shutdown intervenes.
pub proof fn lemma_fifo_order(cmds: Seq<Command>)
    ensures
        pump_outputs(cmds.map_values(|c: Command| WriteInput::Next(c))) == cmds,
    decreases cmds.len(),
{
    let ins = cmds.map_values(|c: Command| WriteInput::Next(c));
    if cmds.len() == 0 {
        assert(pump_outputs(ins) =~= cmds);
    } else {
        lemma_fifo_order(cmds.skip(1));
        assert(ins.skip(1) =~= cmds.skip(1).map_values(|c: Command| WriteInput::Next(c)));
        assert(ins[0] == WriteInput::Next(cmds[0]));
        assert(pump_outputs(ins) =~= cmds);
    }
}

} // verus!
