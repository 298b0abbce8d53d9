use wirechat::decode::{parse_frame_text, PValue};
use wirechat::error::WirechatError;
use wirechat::event::Event;
use wirechat::pump::{classify_frame, read_step, PumpStep, ReadInput};

fn step_frame(text: &str) -> PumpStep {
    read_step(ReadInput::Frame(String::from(text)))
}

fn expect_event(text: &str) -> Event {
    let step = step_frame(text);
    assert!(!step.stop, "a text frame must not stop the inbound pump");
    step.emit.expect("a text frame must emit exactly one event")
}

#[test]
fn message_event_frame_decodes_to_message() {
    let ev = expect_event(
        "{\"type\":\"event\",\"event\":\"message\",\"data\":{\"room\":\"general\",\"user\":\"alice\",\"text\":\"hi\",\"ts\":1000}}",
    );
    match ev {
        Event::Message(m) => {
            assert_eq!(m.room, "general");
            assert_eq!(m.user, "alice");
            assert_eq!(m.text, "hi");
            assert_eq!(m.ts, 1000);
        },
        other => panic!("expected a message event, got {:?}", other),
    }
}

#[test]
fn fields_in_any_order_and_whitespace() {
    let ev = expect_event(
        " { \"event\" : \"message\" , \"data\" : { \"ts\" : -5 , \"text\" : \"x\" , \"user\" : \"u\" , \"room\" : \"r\" } , \"type\" : \"event\" } ",
    );
    match ev {
        Event::Message(m) => {
            assert_eq!(m.room, "r");
            assert_eq!(m.user, "u");
            assert_eq!(m.text, "x");
            assert_eq!(m.ts, -5);
        },
        other => panic!("expected a message event, got {:?}", other),
    }
}

#[test]
fn user_joined_and_left_frames() {
    let j = expect_event(
        "{\"type\":\"event\",\"event\":\"user_joined\",\"data\":{\"room\":\"g\",\"user\":\"bob\"}}",
    );
    match j {
        Event::UserJoined(u) => {
            assert_eq!(u.room, "g");
            assert_eq!(u.user, "bob");
        },
        other => panic!("expected user_joined, got {:?}", other),
    }
    let l = expect_event(
        "{\"type\":\"event\",\"event\":\"user_left\",\"data\":{\"room\":\"g\",\"user\":\"bob\"}}",
    );
    assert!(matches!(l, Event::UserLeft(_)));
}

#[test]
fn server_error_frame_yields_one_error_event() {
    let step = step_frame(
        "{\"type\":\"error\",\"error\":{\"code\":\"ROOM_FULL\",\"msg\":\"room is full\"}}",
    );
    assert!(!step.stop, "a server error must not stop the inbound pump");
    match step.emit.expect("a server error emits one event") {
        Event::Error(WirechatError::Server { code, message }) => {
            assert_eq!(code, "ROOM_FULL");
            assert_eq!(message, "room is full");
        },
        other => panic!("expected a server error event, got {:?}", other),
    }
}

#[test]
fn unknown_event_name_is_protocol_error_and_continues() {
    let step = step_frame(
        "{\"type\":\"event\",\"event\":\"typing\",\"data\":{\"room\":\"g\"}}",
    );
    assert!(!step.stop, "an unknown event name must not stop the inbound pump");
    match step.emit.expect("an unknown event name emits one event") {
        Event::Error(WirechatError::Protocol(m)) => assert_eq!(m, "unknown event: typing"),
        other => panic!("expected a protocol error event, got {:?}", other),
    }
}

#[test]
fn missing_event_name_and_payload() {
    let a = expect_event("{\"type\":\"event\",\"data\":{\"room\":\"g\"}}");
    assert!(matches!(a, Event::Error(WirechatError::Protocol(m)) if m == "missing event name"));
    let b = expect_event("{\"type\":\"event\",\"event\":\"message\"}");
    assert!(matches!(b, Event::Error(WirechatError::Protocol(m)) if m == "missing event payload"));
}

#[test]
fn malformed_event_payload_is_codec_error() {
    let ev = expect_event(
        "{\"type\":\"event\",\"event\":\"message\",\"data\":{\"room\":\"g\",\"user\":\"u\",\"text\":\"x\"}}",
    );
    assert!(matches!(ev, Event::Error(WirechatError::Serde(m)) if m == "malformed event payload"));
}

#[test]
fn error_frame_without_payload_is_protocol_error() {
    let ev = expect_event("{\"type\":\"error\"}");
    assert!(matches!(ev, Event::Error(WirechatError::Protocol(m)) if m == "missing error payload"));
}

#[test]
fn unexpected_frame_type_is_protocol_error() {
    let ev = expect_event("{\"type\":\"shout\"}");
    assert!(
        matches!(ev, Event::Error(WirechatError::Protocol(m)) if m == "unexpected outbound type: shout")
    );
}

#[test]
fn invalid_json_is_codec_error_and_continues() {
    let step = step_frame("this is not a frame");
    assert!(!step.stop, "a malformed frame must not stop the inbound pump");
    assert!(matches!(
        step.emit,
        Some(Event::Error(WirechatError::Serde(m))) if m == "invalid frame"
    ));
}

#[test]
fn parser_handles_escapes_and_numbers() {
    let f = parse_frame_text(
        "{\"type\":\"t\",\"data\":{\"a\":\"q\\\"b\\\\c\\u0041\\n\",\"n\":-9223372036854775808,\"m\":9223372036854775807,\"z\":null}}",
    )
    .expect("frame must parse");
    assert_eq!(f.typ, "t");
    let p = f.data.expect("data payload");
    let mut a = None;
    let mut n = None;
    let mut m = None;
    let mut z = None;
    for (k, v) in &p.entries {
        match k.as_str() {
            "a" => a = Some(v.clone()),
            "n" => n = Some(v.clone()),
            "m" => m = Some(v.clone()),
            "z" => z = Some(v.clone()),
            _ => {},
        }
    }
    assert_eq!(a, Some(PValue::S(String::from("q\"b\\cA\n"))));
    assert_eq!(n, Some(PValue::I(i64::MIN)));
    assert_eq!(m, Some(PValue::I(i64::MAX)));
    assert_eq!(z, Some(PValue::Null));
}

#[test]
fn parser_rejects_bad_shapes() {
    assert!(parse_frame_text("").is_none());
    assert!(parse_frame_text("{}").is_none());
    assert!(parse_frame_text("{\"event\":\"message\"}").is_none(), "a frame needs a type");
    assert!(parse_frame_text("{\"type\":\"t\"} trailing").is_none());
    assert!(parse_frame_text("{\"type\":\"t\",\"data\":{\"n\":12.5}}").is_none());
    assert!(parse_frame_text("{\"type\":\"t\",\"data\":{\"n\":99999999999999999999}}").is_none());
    assert!(parse_frame_text("{\"type\":\"t\",\"other\":1}").is_none());
    assert!(parse_frame_text("{\"type\":\"t\",}").is_none());
}

#[test]
fn classify_accepts_extra_payload_fields() {
    let f = parse_frame_text(
        "{\"type\":\"event\",\"event\":\"user_joined\",\"data\":{\"room\":\"g\",\"user\":\"u\",\"extra\":1}}",
    )
    .expect("frame must parse");
    assert!(matches!(classify_frame(&f), Event::UserJoined(_)));
}
