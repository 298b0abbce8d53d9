use wirechat::codec::{command_of_frame, encode_command, Command};
use wirechat::decode::parse_frame_text;

fn round_trip(c: &Command) -> Command {
    let text = encode_command(c);
    let frame = parse_frame_text(text.as_str()).expect("peer must parse the frame");
    command_of_frame(&frame).expect("peer must read the command back")
}

#[test]
fn encode_hello_exact() {
    let c = Command::Hello {
        protocol: 1,
        token: Some(String::from("tok")),
        user: Some(String::from("alice")),
    };
    assert_eq!(
        encode_command(&c),
        "{\"type\":\"hello\",\"data\":{\"protocol\":1,\"token\":\"tok\",\"user\":\"alice\"}}"
    );
}

#[test]
fn encode_hello_without_credentials() {
    let c = Command::Hello { protocol: 7, token: None, user: None };
    assert_eq!(
        encode_command(&c),
        "{\"type\":\"hello\",\"data\":{\"protocol\":7,\"token\":null,\"user\":null}}"
    );
}

#[test]
fn encode_join_exact() {
    let c = Command::Join { room: String::from("general") };
    assert_eq!(
        encode_command(&c),
        "{\"type\":\"join\",\"data\":{\"room\":\"general\"}}"
    );
}

#[test]
fn encode_leave_exact() {
    let c = Command::Leave { room: String::from("general") };
    assert_eq!(
        encode_command(&c),
        "{\"type\":\"leave\",\"data\":{\"room\":\"general\"}}"
    );
}

#[test]
fn encode_msg_exact() {
    let c = Command::Msg { room: String::from("general"), text: String::from("hi") };
    assert_eq!(
        encode_command(&c),
        "{\"type\":\"msg\",\"data\":{\"room\":\"general\",\"text\":\"hi\"}}"
    );
}

#[test]
fn encode_escapes_quotes_and_backslashes() {
    let c = Command::Msg {
        room: String::from("general"),
        text: String::from("say \"hi\" \\ now"),
    };
    assert_eq!(
        encode_command(&c),
        "{\"type\":\"msg\",\"data\":{\"room\":\"general\",\"text\":\"say \\\"hi\\\" \\\\ now\"}}"
    );
}

#[test]
fn encode_escapes_control_characters() {
    let c = Command::Msg { room: String::from("r"), text: String::from("a\nb\tc") };
    assert_eq!(
        encode_command(&c),
        "{\"type\":\"msg\",\"data\":{\"room\":\"r\",\"text\":\"a\\u000ab\\u0009c\"}}"
    );
}

#[test]
fn round_trip_hello() {
    let c = Command::Hello {
        protocol: 1,
        token: Some(String::from("SECRET-REDACTED")),
        user: Some(String::from("alice")),
    };
    assert_eq!(round_trip(&c), c);
}

#[test]
fn round_trip_hello_no_token() {
    let c = Command::Hello { protocol: 1, token: None, user: None };
    assert_eq!(round_trip(&c), c);
}

#[test]
fn round_trip_join() {
    let c = Command::Join { room: String::from("general") };
    assert_eq!(round_trip(&c), c);
}

#[test]
fn round_trip_leave() {
    let c = Command::Leave { room: String::from("lobby") };
    assert_eq!(round_trip(&c), c);
}

#[test]
fn round_trip_msg() {
    let c = Command::Msg { room: String::from("general"), text: String::from("hello there") };
    assert_eq!(round_trip(&c), c);
}

#[test]
fn round_trip_msg_with_escapes() {
    let c = Command::Msg {
        room: String::from("ro\"om\\x"),
        text: String::from("line1\nline2\ttabbed \"quoted\" \\slash"),
    };
    assert_eq!(round_trip(&c), c);
}

#[test]
fn round_trip_msg_with_unicode() {
    let c = Command::Msg { room: String::from("caf\u{e9}"), text: String::from("\u{1f600} ok") };
    assert_eq!(round_trip(&c), c);
}
