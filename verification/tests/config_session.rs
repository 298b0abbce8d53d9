use wirechat::codec::Command;
use wirechat::config::Config;
use wirechat::error::WirechatError;
use wirechat::session::Session;

#[test]
fn default_config_values() {
    let cfg = Config::default();
    assert_eq!(cfg.url, "");
    assert_eq!(cfg.token, None);
    assert_eq!(cfg.user, None);
    assert_eq!(cfg.handshake_timeout, 10_000);
    assert_eq!(cfg.read_timeout, 30_000);
    assert_eq!(cfg.write_timeout, 10_000);
}

#[test]
fn config_builders() {
    let cfg = Config::new(String::from("ws://h/chat"), Some(String::from("SECRET-REDACTED")))
        .with_user(String::from("alice"))
        .with_timeouts(1, 2, 3);
    assert_eq!(cfg.url, "ws://h/chat");
    assert_eq!(cfg.token.as_deref(), Some("SECRET-REDACTED"));
    assert_eq!(cfg.user.as_deref(), Some("alice"));
    assert_eq!(cfg.handshake_timeout, 1);
    assert_eq!(cfg.read_timeout, 2);
    assert_eq!(cfg.write_timeout, 3);
}

#[test]
fn connect_with_empty_endpoint_fails() {
    let s = Session::new(Config::default());
    let r = s.connect_request();
    assert!(matches!(r, Err(WirechatError::UrlEmpty)));
}

#[test]
fn connect_twice_fails_already_connected() {
    let mut s = Session::new(Config::new(String::from("ws://h/chat"), None));
    let first = s.connect_request();
    assert!(first.is_ok());
    s.mark_connected();
    let second = s.connect_request();
    assert!(matches!(second, Err(WirechatError::AlreadyConnected)));
}

#[test]
fn connect_request_returns_hello() {
    let cfg = Config::new(String::from("ws://h/chat"), Some(String::from("tok")))
        .with_user(String::from("bob"));
    let s = Session::new(cfg);
    let r = s.connect_request().unwrap();
    assert_eq!(
        r,
        Command::Hello {
            protocol: wirechat::PROTOCOL_VERSION,
            token: Some(String::from("tok")),
            user: Some(String::from("bob")),
        }
    );
}

#[test]
fn submit_commands_in_order() {
    let mut s = Session::new(Config::new(String::from("ws://h/chat"), None));
    s.connect_request().unwrap();
    s.mark_connected();
    let a = s.join(String::from("general")).unwrap();
    let b = s.send(String::from("general"), String::from("hi")).unwrap();
    let c = s.leave(String::from("general")).unwrap();
    assert_eq!(a, Command::Join { room: String::from("general") });
    assert_eq!(
        b,
        Command::Msg { room: String::from("general"), text: String::from("hi") }
    );
    assert_eq!(c, Command::Leave { room: String::from("general") });
}

#[test]
fn close_when_never_connected_is_noop() {
    let mut s = Session::new(Config::new(String::from("ws://h/chat"), None));
    let was = s.close();
    assert!(!was);
}

#[test]
fn submit_after_close_fails_not_connected() {
    let mut s = Session::new(Config::new(String::from("ws://h/chat"), None));
    s.connect_request().unwrap();
    s.mark_connected();
    let was = s.close();
    assert!(was);
    assert!(matches!(
        s.join(String::from("general")),
        Err(WirechatError::NotConnected)
    ));
    assert!(matches!(
        s.leave(String::from("general")),
        Err(WirechatError::NotConnected)
    ));
    assert!(matches!(
        s.send(String::from("general"), String::from("hi")),
        Err(WirechatError::NotConnected)
    ));
}

#[test]
fn submit_before_connect_fails_not_connected() {
    let mut s = Session::new(Config::new(String::from("ws://h/chat"), None));
    assert!(matches!(
        s.join(String::from("general")),
        Err(WirechatError::NotConnected)
    ));
}

#[test]
fn error_messages() {
    assert_eq!(WirechatError::NotConnected.message(), "not connected");
    assert_eq!(WirechatError::AlreadyConnected.message(), "already connected");
    assert_eq!(WirechatError::UrlEmpty.message(), "url is empty");
    assert_eq!(
        WirechatError::Timeout(String::from("write")).message(),
        "timeout: write"
    );
    assert_eq!(
        WirechatError::Server {
            code: String::from("ROOM_FULL"),
            message: String::from("room is full"),
        }
        .message(),
        "server error ROOM_FULL: room is full"
    );
}
