//! Wire codec, encoding side: session commands and their text frames.
//!
//! Every client-to-server frame is a tagged object with a `type`
//! discriminator and a `data` payload. The encoder produces one
//! canonical text rendering per command, pinned exactly by
//! [`cmd_text`]; string content is escaped as JSON requires (quote,
//! backslash, and control characters below 0x20).

use vstd::prelude::*;
use crate::config::Config;
use crate::PROTOCOL_VERSION;

verus! {

/// An outbound session command, consumed once by the outbound pump.
#[derive(Debug, Clone, PartialEq, Eq)]
pub enum Command {
    Hello { protocol: u8, token: Option<String>, user: Option<String> },
    Join { room: String },
    Leave { room: String },
    Msg { room: String, text: String },
}

/// The hello command a configuration gives rise to.
pub open spec fn hello_cmd(cfg: Config) -> Command {
    Command::Hello { protocol: PROTOCOL_VERSION, token: cfg.token, user: cfg.user }
}

/// Hexadecimal digit characters, lower case.
pub open spec fn hex_char(n: int) -> char {
    if n == 0 { '0' } else if n == 1 { '1' } else if n == 2 { '2' } else if n == 3 { '3' }
    else if n == 4 { '4' } else if n == 5 { '5' } else if n == 6 { '6' } else if n == 7 { '7' }
    else if n == 8 { '8' } else if n == 9 { '9' } else if n == 10 { 'a' } else if n == 11 { 'b' }
    else if n == 12 { 'c' } else if n == 13 { 'd' } else if n == 14 { 'e' } else { 'f' }
}

/// How one character appears inside a JSON string literal.
pub open spec fn esc_char(c: char) -> Seq<char> {
    if c == '"' {
        seq!['\\', '"']
    } else if c == '\\' {
        seq!['\\', '\\']
    } else if (c as u32) < 32 {
        seq!['\\', 'u', '0', '0', hex_char((c as u32) as int / 16), hex_char((c as u32) as int % 16)]
    } else {
        seq![c]
    }
}

/// A whole character sequence escaped for a JSON string literal.
pub open spec fn escape_seq(s: Seq<char>) -> Seq<char>
    decreases s.len(),
{
    if s.len() == 0 {
        Seq::<char>::empty()
    } else {
        esc_char(s[0]) + escape_seq(s.skip(1))
    }
}

/// A JSON string literal: quote, escaped content, quote.
pub open spec fn json_string(s: Seq<char>) -> Seq<char> {
    seq!['"'] + escape_seq(s) + seq!['"']
}

/// An optional string field: a JSON string, or `null` when absent.
pub open spec fn opt_json_string(o: Option<String>) -> Seq<char> {
    match o {
        Some(s) => json_string(s@),
        None => "null"@,
    }
}

/// Decimal rendering of an unsigned integer.
pub open spec fn uint_text(n: nat) -> Seq<char>
    decreases n,
{
    if n < 10 {
        seq![hex_char(n as int)]
    } else {
        uint_text(n / 10) + seq![hex_char(n as int % 10)]
    }
}

/// The exact text frame of a command.
pub open spec fn cmd_text(c: Command) -> Seq<char> {
    match c {
        Command::Hello { protocol, token, user } => "{\"type\":\"hello\",\"data\":{\"protocol\":"@
            + uint_text(protocol as nat) + ",\"token\":"@ + opt_json_string(token) + ",\"user\":"@
            + opt_json_string(user) + "}}"@,
        Command::Join { room } => "{\"type\":\"join\",\"data\":{\"room\":"@ + json_string(room@)
            + "}}"@,
        Command::Leave { room } => "{\"type\":\"leave\",\"data\":{\"room\":"@ + json_string(room@)
            + "}}"@,
        Command::Msg { room, text } => "{\"type\":\"msg\",\"data\":{\"room\":"@ + json_string(room@)
            + ",\"text\":"@ + json_string(text@) + "}}"@,
    }
}

impl Command {
    /// The hello command carrying the protocol version, the auth token
    /// and the display name of a configuration.
    pub fn hello(cfg: &Config) -> (c: Command)
        ensures
            c == hello_cmd(*cfg),
    {
        let token = match &cfg.token {
            Some(t) => Some(t.clone()),
            None => None,
        };
        let user = match &cfg.user {
            Some(u) => Some(u.clone()),
            None => None,
        };
        Command::Hello { protocol: PROTOCOL_VERSION, token, user }
    }

    /// The command that joins a room.
    pub fn join(room: String) -> (c: Command)
        ensures
            c == (Command::Join { room }),
    {
        Command::Join { room }
    }

    /// The command that leaves a room.
    pub fn leave(room: String) -> (c: Command)
        ensures
            c == (Command::Leave { room }),
    {
        Command::Leave { room }
    }

    /// The command that sends a chat message to a room.
    pub fn msg(room: String, text: String) -> (c: Command)
        ensures
            c == (Command::Msg { room, text }),
    {
        Command::Msg { room, text }
    }
}

/// What a peer must read back from a parsed command frame: the exact
/// command, or nothing when the frame is not a well-formed command.
pub open spec fn command_ok(fv: crate::decode::FrameV, r: Option<Command>) -> bool {
    if fv.typ == "hello"@ {
        match fv.data {
            Some(p) => match (
                crate::decode::int_field(p, "protocol"@),
                crate::decode::opt_str_field(p, "token"@),
                crate::decode::opt_str_field(p, "user"@),
            ) {
                (Some(proto), Some(token), Some(user)) => if 0 <= proto <= 255 {
                    r matches Some(Command::Hello { protocol, token: t, user: u }) && protocol
                        as int == proto && crate::decode::opt_str_view(t) == token
                        && crate::decode::opt_str_view(u) == user
                } else {
                    r is None
                },
                _ => r is None,
            },
            None => r is None,
        }
    } else if fv.typ == "join"@ {
        match fv.data {
            Some(p) => match crate::decode::str_field(p, "room"@) {
                Some(room) => r matches Some(Command::Join { room: rm }) && rm@ == room,
                None => r is None,
            },
            None => r is None,
        }
    } else if fv.typ == "leave"@ {
        match fv.data {
            Some(p) => match crate::decode::str_field(p, "room"@) {
                Some(room) => r matches Some(Command::Leave { room: rm }) && rm@ == room,
                None => r is None,
            },
            None => r is None,
        }
    } else if fv.typ == "msg"@ {
        match fv.data {
            Some(p) => match (
                crate::decode::str_field(p, "room"@),
                crate::decode::str_field(p, "text"@),
            ) {
                (Some(room), Some(text)) => r matches Some(Command::Msg { room: rm, text: tx })
                    && rm@ == room && tx@ == text,
                _ => r is None,
            },
            None => r is None,
        }
    } else {
        r is None
    }
}

/// Reads a command back out of a parsed frame, as a peer of the
/// protocol would: the inverse of the encoder over its frames.
pub fn command_of_frame(f: &crate::decode::Frame) -> (r: Option<Command>)
    ensures
        command_ok(f@, r),
{
    if crate::decode::str_eq(f.typ.as_str(), "hello") {
        match &f.data {
            Some(p) => {
                let proto = p.get_int("protocol");
                let token = p.get_opt_str("token");
                let user = p.get_opt_str("user");
                match (proto, token, user) {
                    (Some(proto), Some(token), Some(user)) => {
                        if 0 <= proto && proto <= 255 {
                            Some(Command::Hello { protocol: proto as u8, token, user })
                        } else {
                            None
                        }
                    },
                    _ => None,
                }
            },
            None => None,
        }
    } else if crate::decode::str_eq(f.typ.as_str(), "join") {
        match &f.data {
            Some(p) => match p.get_str("room") {
                Some(room) => Some(Command::Join { room }),
                None => None,
            },
            None => None,
        }
    } else if crate::decode::str_eq(f.typ.as_str(), "leave") {
        match &f.data {
            Some(p) => match p.get_str("room") {
                Some(room) => Some(Command::Leave { room }),
                None => None,
            },
            None => None,
        }
    } else if crate::decode::str_eq(f.typ.as_str(), "msg") {
        match &f.data {
            Some(p) => {
                let room = p.get_str("room");
                let text = p.get_str("text");
                match (room, text) {
                    (Some(room), Some(text)) => Some(Command::Msg { room, text }),
                    _ => None,
                }
            },
            None => None,
        }
    } else {
        None
    }
}

/// Relies on String::push: appends the given character at the end.
#[verifier::external_body]
pub(crate) fn push_char(out: &mut String, c: char)
    ensures
        final(out)@ == old(out)@.push(c),
{
    out.push(c);
}

/// Escaping distributes over appending one character at the end.
proof fn lemma_escape_snoc(s: Seq<char>, c: char)
    ensures
        escape_seq(s.push(c)) == escape_seq(s) + esc_char(c),
    decreases s.len(),
{
    if s.len() == 0 {
        assert(s.push(c)[0] == c);
        assert(s.push(c).skip(1) =~= Seq::<char>::empty());
        assert(escape_seq(Seq::<char>::empty()) =~= Seq::<char>::empty());
        assert(escape_seq(s.push(c)) =~= escape_seq(s) + esc_char(c));
    } else {
        assert(s.push(c).skip(1) =~= s.skip(1).push(c));
        lemma_escape_snoc(s.skip(1), c);
        assert(escape_seq(s.push(c)) =~= escape_seq(s) + esc_char(c));
    }
}

/// The digit character of a value below sixteen.
fn hex_digit(n: u32) -> (c: char)
    requires
        n < 16,
    ensures
        c == hex_char(n as int),
{
    if n == 0 { '0' } else if n == 1 { '1' } else if n == 2 { '2' } else if n == 3 { '3' }
    else if n == 4 { '4' } else if n == 5 { '5' } else if n == 6 { '6' } else if n == 7 { '7' }
    else if n == 8 { '8' } else if n == 9 { '9' } else if n == 10 { 'a' } else if n == 11 { 'b' }
    else if n == 12 { 'c' } else if n == 13 { 'd' } else if n == 14 { 'e' } else { 'f' }
}

/// Appends one character in its escaped form.
fn push_escaped(out: &mut String, c: char)
    ensures
        final(out)@ == old(out)@ + esc_char(c),
{
    if c == '"' {
        push_char(out, '\\');
        push_char(out, '"');
        assert(out@ =~= old(out)@ + esc_char(c));
    } else if c == '\\' {
        push_char(out, '\\');
        push_char(out, '\\');
        assert(out@ =~= old(out)@ + esc_char(c));
    } else if (c as u32) < 32 {
        let code: u32 = c as u32;
        push_char(out, '\\');
        push_char(out, 'u');
        push_char(out, '0');
        push_char(out, '0');
        push_char(out, hex_digit(code / 16));
        push_char(out, hex_digit(code % 16));
        assert(out@ =~= old(out)@ + esc_char(c));
    } else {
        push_char(out, c);
        assert(out@ =~= old(out)@ + esc_char(c));
    }
}

/// Appends the escaped form of a whole string.
fn append_escaped(out: &mut String, s: &str)
    ensures
        final(out)@ == old(out)@ + escape_seq(s@),
{
    let n = s.unicode_len();
    let mut i: usize = 0;
    while i < n
        invariant
            n == s@.len(),
            i <= n,
            out@ == old(out)@ + escape_seq(s@.take(i as int)),
        decreases n - i,
    {
        let c = s.get_char(i);
        push_escaped(out, c);
        proof {
            assert(s@.take(i as int).push(s@[i as int]) =~= s@.take(i + 1));
            lemma_escape_snoc(s@.take(i as int), s@[i as int]);
        }
        i = i + 1;
    }
    proof {
        assert(s@.take(n as int) =~= s@);
    }
}

/// Appends a JSON string literal holding the given content.
fn append_json_string(out: &mut String, s: &str)
    ensures
        final(out)@ == old(out)@ + json_string(s@),
{
    push_char(out, '"');
    append_escaped(out, s);
    push_char(out, '"');
    assert(out@ =~= old(out)@ + json_string(s@));
}

/// Appends a JSON string literal, or `null` when the field is absent.
fn append_opt_string(out: &mut String, o: &Option<String>)
    ensures
        final(out)@ == old(out)@ + opt_json_string(*o),
{
    match o {
        Some(s) => append_json_string(out, s.as_str()),
        None => {
            out.append("null");
        },
    }
}

/// Appends the decimal rendering of an unsigned integer.
fn append_uint(out: &mut String, n: u64)
    ensures
        final(out)@ == old(out)@ + uint_text(n as nat),
    decreases n,
{
    if n < 10 {
        push_char(out, hex_digit(n as u32));
        assert(out@ =~= old(out)@ + uint_text(n as nat));
    } else {
        append_uint(out, n / 10);
        push_char(out, hex_digit((n % 10) as u32));
        assert(out@ =~= old(out)@ + uint_text(n as nat));
    }
}

/// Encodes a command as its unique text frame.
pub fn encode_command(c: &Command) -> (r: String)
    ensures
        r@ == cmd_text(*c),
{
    let mut out = String::new();
    match c {
        Command::Hello { protocol, token, user } => {
            out.append("{\"type\":\"hello\",\"data\":{\"protocol\":");
            append_uint(&mut out, *protocol as u64);
            out.append(",\"token\":");
            append_opt_string(&mut out, token);
            out.append(",\"user\":");
            append_opt_string(&mut out, user);
            out.append("}}");
            assert(out@ =~= cmd_text(*c));
        },
        Command::Join { room } => {
            out.append("{\"type\":\"join\",\"data\":{\"room\":");
            append_json_string(&mut out, room.as_str());
            out.append("}}");
            assert(out@ =~= cmd_text(*c));
        },
        Command::Leave { room } => {
            out.append("{\"type\":\"leave\",\"data\":{\"room\":");
            append_json_string(&mut out, room.as_str());
            out.append("}}");
            assert(out@ =~= cmd_text(*c));
        },
        Command::Msg { room, text } => {
            out.append("{\"type\":\"msg\",\"data\":{\"room\":");
            append_json_string(&mut out, room.as_str());
            out.append(",\"text\":");
            append_json_string(&mut out, text.as_str());
            out.append("}}");
            assert(out@ =~= cmd_text(*c));
        },
    }
    out
}

} // verus!
