use wirechat::codec::Command;
use wirechat::error::WirechatError;
use wirechat::event::{Event, MessageEvent};
use wirechat::fanout::{delivery_plan, Callbacks, Delivery};
use wirechat::pump::{read_step, write_result_step, write_step, ReadInput, WriteAction, WriteInput};

#[test]
fn idle_timeout_is_benign() {
    let step = read_step(ReadInput::IdleTimeout);
    assert!(!step.stop, "an idle timeout must not stop the inbound pump");
    assert!(step.emit.is_none(), "an idle timeout must emit no event");
}

#[test]
fn control_frames_are_ignored() {
    let step = read_step(ReadInput::ControlFrame);
    assert!(!step.stop);
    assert!(step.emit.is_none());
}

#[test]
fn shutdown_close_and_end_of_stream_stop_silently() {
    for input in [ReadInput::ShutdownFired, ReadInput::CloseFrame, ReadInput::EndOfStream] {
        let step = read_step(input);
        assert!(step.stop);
        assert!(step.emit.is_none());
    }
}

#[test]
fn transport_error_emits_and_stops() {
    let step = read_step(ReadInput::TransportError(String::from("broken pipe")));
    assert!(step.stop, "a transport read error stops the inbound pump");
    assert!(matches!(
        step.emit,
        Some(Event::Error(WirechatError::WebSocket(m))) if m == "broken pipe"
    ));
}

#[test]
fn write_step_encodes_commands() {
    let a = write_step(&WriteInput::Next(Command::Join { room: String::from("g") }));
    match a {
        WriteAction::Send(t) => assert_eq!(t, "{\"type\":\"join\",\"data\":{\"room\":\"g\"}}"),
        WriteAction::Teardown => panic!("a command must be written, not torn down"),
    }
    assert!(matches!(write_step(&WriteInput::ShutdownFired), WriteAction::Teardown));
    assert!(matches!(write_step(&WriteInput::QueueClosed), WriteAction::Teardown));
}

#[test]
fn write_timeout_emits_one_error_and_stops() {
    let step = write_result_step(Err(WirechatError::Timeout(String::from("deadline has elapsed"))));
    assert!(step.stop, "a write timeout terminates the outbound pump");
    assert!(matches!(
        step.emit,
        Some(Event::Error(WirechatError::Timeout(m))) if m == "deadline has elapsed"
    ));
}

#[test]
fn write_success_continues_silently() {
    let step = write_result_step(Ok(()));
    assert!(!step.stop);
    assert!(step.emit.is_none());
}

#[test]
fn broadcast_happens_before_callback() {
    let ev = Event::Message(MessageEvent {
        room: String::from("general"),
        user: String::from("alice"),
        text: String::from("hi"),
        ts: 1000,
    });
    let cbs = Callbacks { on_message: true, on_user_joined: false, on_user_left: false, on_error: false };
    let plan = delivery_plan(&ev, &cbs);
    assert_eq!(plan.len(), 2);
    assert_eq!(plan[0], Delivery::Broadcast(ev.clone()));
    assert_eq!(plan[1], Delivery::Callback(ev));
}

#[test]
fn no_callback_means_broadcast_only() {
    let ev = Event::Error(WirechatError::NotConnected);
    let plan = delivery_plan(&ev, &Callbacks::none());
    assert_eq!(plan.len(), 1);
    assert_eq!(plan[0], Delivery::Broadcast(ev));
}

#[test]
fn error_events_use_the_error_slot() {
    let ev = Event::Error(WirechatError::Server {
        code: String::from("ROOM_FULL"),
        message: String::from("room is full"),
    });
    let cbs = Callbacks { on_message: false, on_user_joined: false, on_user_left: false, on_error: true };
    let plan = delivery_plan(&ev, &cbs);
    assert_eq!(plan.len(), 2);
    assert!(matches!(&plan[0], Delivery::Broadcast(Event::Error(_))));
    assert!(matches!(&plan[1], Delivery::Callback(Event::Error(_))));
}

#[test]
fn inbound_message_is_delivered_to_both() {
    let step = read_step(ReadInput::Frame(String::from(
        "{\"type\":\"event\",\"event\":\"message\",\"data\":{\"room\":\"general\",\"user\":\"alice\",\"text\":\"hi\",\"ts\":1000}}",
    )));
    let ev = step.emit.expect("one event");
    let cbs = Callbacks { on_message: true, on_user_joined: false, on_user_left: false, on_error: false };
    let plan = delivery_plan(&ev, &cbs);
    let expected = Event::Message(MessageEvent {
        room: String::from("general"),
        user: String::from("alice"),
        text: String::from("hi"),
        ts: 1000,
    });
    assert_eq!(plan[0], Delivery::Broadcast(expected.clone()));
    assert_eq!(plan[1], Delivery::Callback(expected));
}
