//! Wire codec, decoding side: text frames from the peer.
//!
//! The grammar is the JSON shape of the protocol: one top-level object
//! with a `type` discriminator and, depending on it, `event`, `data`
//! and `error` members, whose payloads are flat objects of string,
//! integer and null fields. Whitespace between tokens and any member
//! order are accepted; member values of other shapes are a decode
//! failure. The specification-level parser [`parse_frame`] pins the
//! accepted language and the parsed value exactly; the executable
//! parser returns precisely its result.

use vstd::prelude::*;
use crate::codec::push_char;

verus! {

/// A payload field value at the specification level.
pub enum PVal {
    S(Seq<char>),
    I(int),
    Null,
}

/// A payload field value: string, integer or null.
#[derive(Debug, Clone, PartialEq, Eq)]
pub enum PValue {
    S(String),
    I(i64),
    Null,
}

impl View for PValue {
    type V = PVal;

    open spec fn view(&self) -> PVal {
        match self {
            PValue::S(s) => PVal::S(s@),
            PValue::I(n) => PVal::I(*n as int),
            PValue::Null => PVal::Null,
        }
    }
}

/// A flat payload object: named string, integer or null fields.
#[derive(Debug, Clone, PartialEq, Eq)]
pub struct Payload {
    pub entries: Vec<(String, PValue)>,
}

impl View for Payload {
    type V = Seq<(Seq<char>, PVal)>;

    open spec fn view(&self) -> Seq<(Seq<char>, PVal)> {
        self.entries@.map_values(|e: (String, PValue)| (e.0@, e.1@))
    }
}

/// A parsed top-level frame at the specification level.
pub struct FrameV {
    pub typ: Seq<char>,
    pub event: Option<Seq<char>>,
    pub data: Option<Seq<(Seq<char>, PVal)>>,
    pub error: Option<Seq<(Seq<char>, PVal)>>,
}

/// A parsed top-level frame: the `type` tag and the optional `event`,
/// `data` and `error` members.
#[derive(Debug, Clone, PartialEq, Eq)]
pub struct Frame {
    pub typ: String,
    pub event: Option<String>,
    pub data: Option<Payload>,
    pub error: Option<Payload>,
}

/// The view of an optional string member.
pub open spec fn opt_str_view(o: Option<String>) -> Option<Seq<char>> {
    match o {
        Some(s) => Some(s@),
        None => None,
    }
}

/// The view of an optional payload member.
pub open spec fn opt_payload_view(o: Option<Payload>) -> Option<Seq<(Seq<char>, PVal)>> {
    match o {
        Some(p) => Some(p@),
        None => None,
    }
}

impl View for Frame {
    type V = FrameV;

    open spec fn view(&self) -> FrameV {
        FrameV {
            typ: self.typ@,
            event: opt_str_view(self.event),
            data: opt_payload_view(self.data),
            error: opt_payload_view(self.error),
        }
    }
}

/// JSON whitespace.
pub open spec fn is_ws(c: char) -> bool {
    c == ' ' || c == '\t' || c == '\n' || c == '\r'
}

/// A decimal digit.
pub open spec fn is_digit(c: char) -> bool {
    48 <= c as u32 && c as u32 <= 57
}

/// The first position at or after `i` holding no whitespace.
pub open spec fn skip_ws(s: Seq<char>, i: int) -> int
    decreases s.len() - i,
{
    if 0 <= i < s.len() && is_ws(s[i]) {
        skip_ws(s, i + 1)
    } else {
        i
    }
}

/// The value of a hexadecimal digit character, or a negative value.
pub open spec fn hex_val(c: char) -> int {
    let n = c as u32;
    if 48 <= n && n <= 57 {
        n - 48
    } else if 97 <= n && n <= 102 {
        n - 87
    } else if 65 <= n && n <= 70 {
        n - 55
    } else {
        -1
    }
}

/// The character a two-character escape stands for, or none.
pub open spec fn short_escape(e: char) -> Option<char> {
    if e == '"' { Some('"') }
    else if e == '\\' { Some('\\') }
    else if e == '/' { Some('/') }
    else if e == 'n' { Some('\n') }
    else if e == 't' { Some('\t') }
    else if e == 'r' { Some('\r') }
    else if e == 'b' { Some('\u{8}') }
    else if e == 'f' { Some('\u{c}') }
    else { None }
}

/// String literal body from `i` up to the closing quote: the decoded
/// content and the position after the quote. Escapes accepted are the
/// short ones and `\u00XX`.
pub open spec fn parse_str_body(s: Seq<char>, i: int) -> Option<(Seq<char>, int)>
    decreases s.len() - i,
{
    if i < 0 || i >= s.len() {
        None
    } else {
        let c = s[i];
        if c == '"' {
            Some((Seq::<char>::empty(), i + 1))
        } else if c == '\\' {
            if i + 1 >= s.len() {
                None
            } else {
                let e = s[i + 1];
                if short_escape(e) is Some {
                    match parse_str_body(s, i + 2) {
                        Some((rest, j)) => Some((seq![short_escape(e)->Some_0] + rest, j)),
                        None => None,
                    }
                } else if e == 'u' {
                    if i + 5 >= s.len() {
                        None
                    } else if s[i + 2] == '0' && s[i + 3] == '0' && hex_val(s[i + 4]) >= 0
                        && hex_val(s[i + 5]) >= 0 {
                        let code = 16 * hex_val(s[i + 4]) + hex_val(s[i + 5]);
                        match parse_str_body(s, i + 6) {
                            Some((rest, j)) => Some((seq![(code as u8) as char] + rest, j)),
                            None => None,
                        }
                    } else {
                        None
                    }
                } else {
                    None
                }
            }
        } else if (c as u32) < 32 {
            None
        } else {
            match parse_str_body(s, i + 1) {
                Some((rest, j)) => Some((seq![c] + rest, j)),
                None => None,
            }
        }
    }
}

/// A whole string literal starting with its opening quote at `i`.
pub open spec fn parse_string(s: Seq<char>, i: int) -> Option<(Seq<char>, int)> {
    if 0 <= i < s.len() && s[i] == '"' {
        parse_str_body(s, i + 1)
    } else {
        None
    }
}

/// The end of the digit run starting at `i`.
pub open spec fn digits_end(s: Seq<char>, i: int) -> int
    decreases s.len() - i,
{
    if 0 <= i < s.len() && is_digit(s[i]) {
        digits_end(s, i + 1)
    } else {
        i
    }
}

/// The value of the digit run from `i` up to `j`.
pub open spec fn digits_val(s: Seq<char>, i: int, j: int) -> int
    decreases j - i,
{
    if j <= i {
        0
    } else {
        digits_val(s, i, j - 1) * 10 + (s[j - 1] as u32 - 48)
    }
}

/// An integer literal at `i`: optional minus, then at most nineteen
/// digits, within the signed 64-bit range.
pub open spec fn parse_int(s: Seq<char>, i: int) -> Option<(int, int)> {
    let neg = 0 <= i < s.len() && s[i] == '-';
    let k = if neg { i + 1 } else { i };
    let e = digits_end(s, k);
    if e == k || e - k > 19 {
        None
    } else {
        let m = digits_val(s, k, e);
        let v = if neg { -m } else { m };
        if -9223372036854775808 <= v && v <= 9223372036854775807 {
            Some((v, e))
        } else {
            None
        }
    }
}

/// Whether the literal `null` stands at `i`.
pub open spec fn null_at(s: Seq<char>, i: int) -> bool {
    0 <= i && i + 4 <= s.len() && s[i] == 'n' && s[i + 1] == 'u' && s[i + 2] == 'l' && s[i + 3]
        == 'l'
}

/// A payload field value at `i`: string, integer or null.
pub open spec fn parse_pvalue(s: Seq<char>, i: int) -> Option<(PVal, int)> {
    if i < 0 || i >= s.len() {
        None
    } else if s[i] == '"' {
        match parse_str_body(s, i + 1) {
            Some((v, j)) => Some((PVal::S(v), j)),
            None => None,
        }
    } else if s[i] == '-' || is_digit(s[i]) {
        match parse_int(s, i) {
            Some((v, j)) => Some((PVal::I(v), j)),
            None => None,
        }
    } else if null_at(s, i) {
        Some((PVal::Null, i + 4))
    } else {
        None
    }
}

/// The members of a payload object, starting at the first key at `i`.
pub open spec fn parse_members(s: Seq<char>, i: int, fuel: nat) -> Option<
    (Seq<(Seq<char>, PVal)>, int),
>
    decreases fuel,
{
    if fuel == 0 {
        None
    } else {
        match parse_string(s, i) {
            None => None,
            Some((key, j1)) => {
                let j2 = skip_ws(s, j1);
                if !(0 <= j2 < s.len() && s[j2] == ':') {
                    None
                } else {
                    let j3 = skip_ws(s, j2 + 1);
                    match parse_pvalue(s, j3) {
                        None => None,
                        Some((v, j4)) => {
                            let j5 = skip_ws(s, j4);
                            if 0 <= j5 < s.len() && s[j5] == ',' {
                                let j6 = skip_ws(s, j5 + 1);
                                match parse_members(s, j6, (fuel - 1) as nat) {
                                    Some((rest, j7)) => Some((seq![(key, v)] + rest, j7)),
                                    None => None,
                                }
                            } else if 0 <= j5 < s.len() && s[j5] == '}' {
                                Some((seq![(key, v)], j5 + 1))
                            } else {
                                None
                            }
                        },
                    }
                }
            },
        }
    }
}

/// A payload object starting with its opening brace at `i`.
pub open spec fn parse_payload(s: Seq<char>, i: int) -> Option<(Seq<(Seq<char>, PVal)>, int)> {
    if 0 <= i < s.len() && s[i] == '{' {
        let j = skip_ws(s, i + 1);
        if 0 <= j < s.len() && s[j] == '}' {
            Some((Seq::<(Seq<char>, PVal)>::empty(), j + 1))
        } else {
            parse_members(s, j, s.len())
        }
    } else {
        None
    }
}

/// One top-level member value at `i`, dispatched on its key, folded
/// into the partial frame. `type` and `event` take a string, `data`
/// and `error` a payload object; a null leaves the member absent; any
/// other key or shape refuses the frame.
pub open spec fn parse_frame_value(
    s: Seq<char>,
    i: int,
    key: Seq<char>,
    typ: Option<Seq<char>>,
    event: Option<Seq<char>>,
    data: Option<Seq<(Seq<char>, PVal)>>,
    errp: Option<Seq<(Seq<char>, PVal)>>,
) -> Option<(Option<Seq<char>>, Option<Seq<char>>, Option<Seq<(Seq<char>, PVal)>>, Option<
    Seq<(Seq<char>, PVal)>,
>, int)> {
    if key == "type"@ {
        match parse_string(s, i) {
            Some((v, j)) => Some((Some(v), event, data, errp, j)),
            None => None,
        }
    } else if key == "event"@ {
        if 0 <= i < s.len() && s[i] == '"' {
            match parse_str_body(s, i + 1) {
                Some((v, j)) => Some((typ, Some(v), data, errp, j)),
                None => None,
            }
        } else if null_at(s, i) {
            Some((typ, event, data, errp, i + 4))
        } else {
            None
        }
    } else if key == "data"@ {
        if 0 <= i < s.len() && s[i] == '{' {
            match parse_payload(s, i) {
                Some((p, j)) => Some((typ, event, Some(p), errp, j)),
                None => None,
            }
        } else if null_at(s, i) {
            Some((typ, event, data, errp, i + 4))
        } else {
            None
        }
    } else if key == "error"@ {
        if 0 <= i < s.len() && s[i] == '{' {
            match parse_payload(s, i) {
                Some((p, j)) => Some((typ, event, data, Some(p), j)),
                None => None,
            }
        } else if null_at(s, i) {
            Some((typ, event, data, errp, i + 4))
        } else {
            None
        }
    } else {
        None
    }
}

/// The members of the top-level frame object, starting at the first
/// key at `i`; the frame requires a `type` member.
pub open spec fn parse_frame_members(
    s: Seq<char>,
    i: int,
    typ: Option<Seq<char>>,
    event: Option<Seq<char>>,
    data: Option<Seq<(Seq<char>, PVal)>>,
    errp: Option<Seq<(Seq<char>, PVal)>>,
    fuel: nat,
) -> Option<(FrameV, int)>
    decreases fuel,
{
    if fuel == 0 {
        None
    } else {
        match parse_string(s, i) {
            None => None,
            Some((key, j1)) => {
                let j2 = skip_ws(s, j1);
                if !(0 <= j2 < s.len() && s[j2] == ':') {
                    None
                } else {
                    let j3 = skip_ws(s, j2 + 1);
                    match parse_frame_value(s, j3, key, typ, event, data, errp) {
                        None => None,
                        Some((t2, e2, d2, r2, j4)) => {
                            let j5 = skip_ws(s, j4);
                            if 0 <= j5 < s.len() && s[j5] == ',' {
                                let j6 = skip_ws(s, j5 + 1);
                                parse_frame_members(s, j6, t2, e2, d2, r2, (fuel - 1) as nat)
                            } else if 0 <= j5 < s.len() && s[j5] == '}' {
                                match t2 {
                                    Some(tv) => Some(
                                        (
                                            FrameV { typ: tv, event: e2, data: d2, error: r2 },
                                            j5 + 1,
                                        ),
                                    ),
                                    None => None,
                                }
                            } else {
                                None
                            }
                        },
                    }
                }
            },
        }
    }
}

/// The whole frame a text denotes, if the text is one frame object
/// with a `type` member and nothing but whitespace around it.
pub open spec fn parse_frame(s: Seq<char>) -> Option<FrameV> {
    let i = skip_ws(s, 0);
    if 0 <= i < s.len() && s[i] == '{' {
        let j = skip_ws(s, i + 1);
        if 0 <= j < s.len() && s[j] == '}' {
            None
        } else {
            match parse_frame_members(s, j, None, None, None, None, s.len()) {
                Some((fv, k)) => {
                    if skip_ws(s, k) == s.len() {
                        Some(fv)
                    } else {
                        None
                    }
                },
                None => None,
            }
        }
    } else {
        None
    }
}

/// The value under a key: the first entry that carries it, if any.
pub open spec fn plookup(es: Seq<(Seq<char>, PVal)>, key: Seq<char>) -> Option<PVal>
    decreases es.len(),
{
    if es.len() == 0 {
        None
    } else if es[0].0 == key {
        Some(es[0].1)
    } else {
        plookup(es.skip(1), key)
    }
}

/// The string under a key, if the key's first entry is a string.
pub open spec fn str_field(es: Seq<(Seq<char>, PVal)>, key: Seq<char>) -> Option<Seq<char>> {
    match plookup(es, key) {
        Some(PVal::S(s)) => Some(s),
        _ => None,
    }
}

/// The integer under a key, if the key's first entry is an integer.
pub open spec fn int_field(es: Seq<(Seq<char>, PVal)>, key: Seq<char>) -> Option<int> {
    match plookup(es, key) {
        Some(PVal::I(n)) => Some(n),
        _ => None,
    }
}

/// An optional string under a key: an absent or null entry is none, a
/// string entry is that string, any other shape is refused.
pub open spec fn opt_str_field(es: Seq<(Seq<char>, PVal)>, key: Seq<char>) -> Option<
    Option<Seq<char>>,
> {
    match plookup(es, key) {
        None => Some(None),
        Some(PVal::Null) => Some(None),
        Some(PVal::S(s)) => Some(Some(s)),
        Some(PVal::I(_)) => None,
    }
}

impl Payload {
    /// The string under a key, if its first occurrence is a string.
    pub fn get_str(&self, key: &str) -> (r: Option<String>)
        ensures
            match str_field(self@, key@) {
                Some(s) => r matches Some(x) && x@ == s,
                None => r is None,
            },
    {
        let n = self.entries.len();
        let mut i: usize = 0;
        proof {
            assert(self@.skip(0) =~= self@);
        }
        while i < n
            invariant
                i <= n,
                n == self.entries.len(),
                plookup(self@, key@) == plookup(self@.skip(i as int), key@),
            decreases n - i,
        {
            proof {
                assert(self@.skip(i as int)[0] == self@[i as int]);
                assert(self@.skip(i as int).skip(1) =~= self@.skip(i as int + 1));
            }
            let e = &self.entries[i];
            if str_eq(e.0.as_str(), key) {
                match &e.1 {
                    PValue::S(s) => {
                        return Some(s.clone());
                    },
                    _ => {
                        return None;
                    },
                }
            }
            i = i + 1;
        }
        proof {
            assert(self@.skip(n as int) =~= Seq::<(Seq<char>, PVal)>::empty());
        }
        None
    }

    /// The optional string under a key: absent or null means none,
    /// a string means that string, any other shape is refused.
    pub fn get_opt_str(&self, key: &str) -> (r: Option<Option<String>>)
        ensures
            match opt_str_field(self@, key@) {
                Some(Some(s)) => r matches Some(Some(x)) && x@ == s,
                Some(None) => r == Some(Option::<String>::None),
                None => r is None,
            },
    {
        let n = self.entries.len();
        let mut i: usize = 0;
        proof {
            assert(self@.skip(0) =~= self@);
        }
        while i < n
            invariant
                i <= n,
                n == self.entries.len(),
                plookup(self@, key@) == plookup(self@.skip(i as int), key@),
            decreases n - i,
        {
            proof {
                assert(self@.skip(i as int)[0] == self@[i as int]);
                assert(self@.skip(i as int).skip(1) =~= self@.skip(i as int + 1));
            }
            let e = &self.entries[i];
            if str_eq(e.0.as_str(), key) {
                match &e.1 {
                    PValue::S(s) => {
                        return Some(Some(s.clone()));
                    },
                    PValue::Null => {
                        return Some(None);
                    },
                    _ => {
                        return None;
                    },
                }
            }
            i = i + 1;
        }
        proof {
            assert(self@.skip(n as int) =~= Seq::<(Seq<char>, PVal)>::empty());
        }
        Some(None)
    }

    /// The integer under a key, if its first occurrence is an integer.
    pub fn get_int(&self, key: &str) -> (r: Option<i64>)
        ensures
            match int_field(self@, key@) {
                Some(x) => r matches Some(n) && n as int == x,
                None => r is None,
            },
    {
        let n = self.entries.len();
        let mut i: usize = 0;
        proof {
            assert(self@.skip(0) =~= self@);
        }
        while i < n
            invariant
                i <= n,
                n == self.entries.len(),
                plookup(self@, key@) == plookup(self@.skip(i as int), key@),
            decreases n - i,
        {
            proof {
                assert(self@.skip(i as int)[0] == self@[i as int]);
                assert(self@.skip(i as int).skip(1) =~= self@.skip(i as int + 1));
            }
            let e = &self.entries[i];
            if str_eq(e.0.as_str(), key) {
                match &e.1 {
                    PValue::I(x) => {
                        return Some(*x);
                    },
                    _ => {
                        return None;
                    },
                }
            }
            i = i + 1;
        }
        proof {
            assert(self@.skip(n as int) =~= Seq::<(Seq<char>, PVal)>::empty());
        }
        None
    }
}

/// Ten to the given power.
pub open spec fn pow10(n: nat) -> int
    decreases n,
{
    if n == 0 {
        1
    } else {
        10 * pow10((n - 1) as nat)
    }
}

proof fn lemma_pow10_mono(a: nat, b: nat)
    requires
        a <= b,
    ensures
        pow10(a) <= pow10(b),
        pow10(a) >= 1,
    decreases b,
{
    if b > 0 {
        if a == b {
            lemma_pow10_mono((a - 1) as nat, (b - 1) as nat);
        } else {
            lemma_pow10_mono(a, (b - 1) as nat);
        }
    }
}

/// The view of an executable string-parse result.
pub open spec fn sb_view(r: Option<(String, usize)>) -> Option<(Seq<char>, int)> {
    match r {
        Some((s, j)) => Some((s@, j as int)),
        None => None,
    }
}

/// The view of an executable integer-parse result.
pub open spec fn int_res_view(r: Option<(i64, usize)>) -> Option<(int, int)> {
    match r {
        Some((x, j)) => Some((x as int, j as int)),
        None => None,
    }
}

/// The view of an executable value-parse result.
pub open spec fn pv_res_view(r: Option<(PValue, usize)>) -> Option<(PVal, int)> {
    match r {
        Some((x, j)) => Some((x@, j as int)),
        None => None,
    }
}

/// The view of an executable payload-parse result.
pub open spec fn pl_res_view(r: Option<(Payload, usize)>) -> Option<(Seq<(Seq<char>, PVal)>, int)> {
    match r {
        Some((p, j)) => Some((p@, j as int)),
        None => None,
    }
}

/// The view of an executable frame-members result.
pub open spec fn fm_res_view(r: Option<(Frame, usize)>) -> Option<(FrameV, int)> {
    match r {
        Some((f, j)) => Some((f@, j as int)),
        None => None,
    }
}

/// The view of an executable member-value result.
pub open spec fn pfv_res_view(
    r: Option<(Option<String>, Option<String>, Option<Payload>, Option<Payload>, usize)>,
) -> Option<(Option<Seq<char>>, Option<Seq<char>>, Option<Seq<(Seq<char>, PVal)>>, Option<
    Seq<(Seq<char>, PVal)>,
>, int)> {
    match r {
        Some((t, e, d, er, j)) => Some(
            (opt_str_view(t), opt_str_view(e), opt_payload_view(d), opt_payload_view(er), j as int),
        ),
        None => None,
    }
}

/// The characters of a text, in order.
fn chars_of(s: &str) -> (v: Vec<char>)
    ensures
        v@ == s@,
{
    let n = s.unicode_len();
    let mut v: Vec<char> = Vec::new();
    let mut i: usize = 0;
    while i < n
        invariant
            i <= n,
            n == s@.len(),
            v@ == s@.take(i as int),
        decreases n - i,
    {
        let c = s.get_char(i);
        v.push(c);
        proof {
            assert(s@.take(i as int).push(s@[i as int]) =~= s@.take(i + 1));
        }
        i = i + 1;
    }
    proof {
        assert(s@.take(n as int) =~= s@);
    }
    v
}

/// Whether two texts hold the same characters.
pub fn str_eq(a: &str, b: &str) -> (r: bool)
    ensures
        r == (a@ == b@),
{
    let n = a.unicode_len();
    let m = b.unicode_len();
    if n != m {
        proof {
            if a@ == b@ {
                assert(a@.len() == b@.len());
            }
        }
        return false;
    }
    let mut i: usize = 0;
    while i < n
        invariant
            i <= n,
            n == a@.len(),
            n == b@.len(),
            forall|k: int| 0 <= k < i ==> a@[k] == b@[k],
        decreases n - i,
    {
        if a.get_char(i) != b.get_char(i) {
            proof {
                if a@ == b@ {
                    assert(a@[i as int] == b@[i as int]);
                }
            }
            return false;
        }
        i = i + 1;
    }
    proof {
        assert(a@ =~= b@);
    }
    true
}

fn skip_ws_exec(v: &Vec<char>, i: usize) -> (r: usize)
    requires
        i <= v.len(),
    ensures
        r as int == skip_ws(v@, i as int),
        i <= r <= v.len(),
{
    let mut j = i;
    while j < v.len() && (v[j] == ' ' || v[j] == '\t' || v[j] == '\n' || v[j] == '\r')
        invariant
            i <= j <= v.len(),
            skip_ws(v@, i as int) == skip_ws(v@, j as int),
        decreases v.len() - j,
    {
        j = j + 1;
    }
    j
}

fn short_escape_exec(e: char) -> (r: Option<char>)
    ensures
        r == short_escape(e),
{
    if e == '"' { Some('"') }
    else if e == '\\' { Some('\\') }
    else if e == '/' { Some('/') }
    else if e == 'n' { Some('\n') }
    else if e == 't' { Some('\t') }
    else if e == 'r' { Some('\r') }
    else if e == 'b' { Some('\u{8}') }
    else if e == 'f' { Some('\u{c}') }
    else { None }
}

fn hex_val_exec(c: char) -> (r: Option<u8>)
    ensures
        r matches Some(n) ==> hex_val(c) == n as int && n < 16,
        r is None ==> hex_val(c) < 0,
{
    let n = c as u32;
    if 48 <= n && n <= 57 {
        Some((n - 48) as u8)
    } else if 97 <= n && n <= 102 {
        Some((n - 87) as u8)
    } else if 65 <= n && n <= 70 {
        Some((n - 55) as u8)
    } else {
        None
    }
}

fn null_at_exec(v: &Vec<char>, i: usize) -> (b: bool)
    requires
        i <= v.len(),
    ensures
        b == null_at(v@, i as int),
{
    if v.len() - i < 4 {
        false
    } else {
        v[i] == 'n' && v[i + 1] == 'u' && v[i + 2] == 'l' && v[i + 3] == 'l'
    }
}

#[verifier::rlimit(60)]
fn parse_str_body_exec(v: &Vec<char>, i: usize) -> (r: Option<(String, usize)>)
    requires
        i <= v.len(),
    ensures
        sb_view(r) == parse_str_body(v@, i as int),
        r matches Some((s, j)) ==> j <= v.len(),
    decreases v.len() - i,
{
    if i >= v.len() {
        return None;
    }
    let c = v[i];
    if c == '"' {
        Some((String::new(), i + 1))
    } else if c == '\\' {
        if v.len() - i < 2 {
            return None;
        }
        let e = v[i + 1];
        match short_escape_exec(e) {
            Some(ch) => {
                match parse_str_body_exec(v, i + 2) {
                    Some((rest, j)) => {
                        let mut s = String::new();
                        push_char(&mut s, ch);
                        s.append(rest.as_str());
                        proof {
                            assert(s@ =~= seq![ch] + rest@);
                        }
                        Some((s, j))
                    },
                    None => None,
                }
            },
            None => {
                if e == 'u' {
                    if v.len() - i < 6 {
                        return None;
                    }
                    if v[i + 2] == '0' && v[i + 3] == '0' {
                        let h1 = hex_val_exec(v[i + 4]);
                        let h2 = hex_val_exec(v[i + 5]);
                        match (h1, h2) {
                            (Some(a), Some(b)) => {
                                let code: u8 = 16 * a + b;
                                let ch = code as char;
                                match parse_str_body_exec(v, i + 6) {
                                    Some((rest, j)) => {
                                        let mut s = String::new();
                                        push_char(&mut s, ch);
                                        s.append(rest.as_str());
                                        proof {
                                            assert(s@ =~= seq![ch] + rest@);
                                        }
                                        Some((s, j))
                                    },
                                    None => None,
                                }
                            },
                            _ => None,
                        }
                    } else {
                        None
                    }
                } else {
                    None
                }
            },
        }
    } else if (c as u32) < 32 {
        None
    } else {
        match parse_str_body_exec(v, i + 1) {
            Some((rest, j)) => {
                let mut s = String::new();
                push_char(&mut s, c);
                s.append(rest.as_str());
                proof {
                    assert(s@ =~= seq![c] + rest@);
                }
                Some((s, j))
            },
            None => None,
        }
    }
}

fn parse_string_exec(v: &Vec<char>, i: usize) -> (r: Option<(String, usize)>)
    requires
        i <= v.len(),
    ensures
        sb_view(r) == parse_string(v@, i as int),
        r matches Some((s, j)) ==> j <= v.len(),
{
    if i < v.len() {
        if v[i] == '"' {
            parse_str_body_exec(v, i + 1)
        } else {
            None
        }
    } else {
        None
    }
}

#[verifier::rlimit(60)]
fn parse_int_exec(v: &Vec<char>, i: usize) -> (r: Option<(i64, usize)>)
    requires
        i <= v.len(),
    ensures
        int_res_view(r) == parse_int(v@, i as int),
        r matches Some((x, j)) ==> j <= v.len(),
{
    let neg = i < v.len() && v[i] == '-';
    let k = if neg { i + 1 } else { i };
    let mut e = k;
    while e < v.len() && (v[e] as u32) >= 48 && (v[e] as u32) <= 57
        invariant
            k <= e <= v.len(),
            digits_end(v@, k as int) == digits_end(v@, e as int),
            forall|m: int| k <= m < e ==> is_digit(v@[m]),
        decreases v.len() - e,
    {
        e = e + 1;
    }
    assert(e as int == digits_end(v@, k as int));
    if e == k || e - k > 19 {
        return None;
    }
    let mut acc: u64 = 0;
    let mut j = k;
    while j < e
        invariant
            k <= j <= e <= v.len(),
            e - k <= 19,
            forall|m: int| k <= m < e ==> is_digit(v@[m]),
            acc == digits_val(v@, k as int, j as int),
            acc < pow10((j - k) as nat),
        decreases e - j,
    {
        let d: u64 = ((v[j] as u32) - 48) as u64;
        proof {
            lemma_pow10_mono((j - k + 1) as nat, 19);
            assert(pow10(19) == 10000000000000000000) by {
                reveal_with_fuel(pow10, 21);
            }
        }
        acc = acc * 10 + d;
        j = j + 1;
    }
    let m_val: u64 = acc;
    if neg {
        if m_val > 9223372036854775808u64 {
            return None;
        }
        let x: i64 = if m_val == 9223372036854775808u64 {
            i64::MIN
        } else {
            -(m_val as i64)
        };
        Some((x, e))
    } else {
        if m_val > 9223372036854775807u64 {
            return None;
        }
        Some((m_val as i64, e))
    }
}

fn parse_pvalue_exec(v: &Vec<char>, i: usize) -> (r: Option<(PValue, usize)>)
    requires
        i <= v.len(),
    ensures
        pv_res_view(r) == parse_pvalue(v@, i as int),
        r matches Some((x, j)) ==> j <= v.len(),
{
    if i >= v.len() {
        return None;
    }
    let c = v[i];
    if c == '"' {
        match parse_str_body_exec(v, i + 1) {
            Some((s, j)) => Some((PValue::S(s), j)),
            None => None,
        }
    } else if c == '-' || ((c as u32) >= 48 && (c as u32) <= 57) {
        match parse_int_exec(v, i) {
            Some((x, j)) => Some((PValue::I(x), j)),
            None => None,
        }
    } else if null_at_exec(v, i) {
        Some((PValue::Null, i + 4))
    } else {
        None
    }
}

#[verifier::rlimit(100)]
fn parse_members_exec(v: &Vec<char>, i: usize, fuel: usize) -> (r: Option<(Payload, usize)>)
    requires
        i <= v.len(),
    ensures
        pl_res_view(r) == parse_members(v@, i as int, fuel as nat),
        r matches Some((p, j)) ==> j <= v.len(),
    decreases fuel,
{
    if fuel == 0 {
        return None;
    }
    match parse_string_exec(v, i) {
        None => None,
        Some((key, j1)) => {
            let j2 = skip_ws_exec(v, j1);
            if !(j2 < v.len() && v[j2] == ':') {
                return None;
            }
            let j3 = skip_ws_exec(v, j2 + 1);
            match parse_pvalue_exec(v, j3) {
                None => None,
                Some((val, j4)) => {
                    let j5 = skip_ws_exec(v, j4);
                    if j5 < v.len() && v[j5] == ',' {
                        let j6 = skip_ws_exec(v, j5 + 1);
                        match parse_members_exec(v, j6, fuel - 1) {
                            Some((rest, j7)) => {
                                let ghost gk = key@;
                                let ghost gv = val@;
                                let ghost grest = rest@;
                                let mut entries: Vec<(String, PValue)> = Vec::new();
                                entries.push((key, val));
                                let mut re = rest.entries;
                                entries.append(&mut re);
                                let p = Payload { entries };
                                proof {
                                    assert(p@ =~= seq![(gk, gv)] + grest);
                                }
                                Some((p, j7))
                            },
                            None => None,
                        }
                    } else if j5 < v.len() && v[j5] == '}' {
                        let ghost gk = key@;
                        let ghost gv = val@;
                        let mut entries: Vec<(String, PValue)> = Vec::new();
                        entries.push((key, val));
                        let p = Payload { entries };
                        proof {
                            assert(p@ =~= seq![(gk, gv)]);
                        }
                        Some((p, j5 + 1))
                    } else {
                        None
                    }
                },
            }
        },
    }
}

fn parse_payload_exec(v: &Vec<char>, i: usize) -> (r: Option<(Payload, usize)>)
    requires
        i <= v.len(),
    ensures
        pl_res_view(r) == parse_payload(v@, i as int),
        r matches Some((p, j)) ==> j <= v.len(),
{
    if i < v.len() && v[i] == '{' {
        let j = skip_ws_exec(v, i + 1);
        if j < v.len() && v[j] == '}' {
            let p = Payload { entries: Vec::new() };
            proof {
                assert(p@ =~= Seq::<(Seq<char>, PVal)>::empty());
            }
            Some((p, j + 1))
        } else {
            parse_members_exec(v, j, v.len())
        }
    } else {
        None
    }
}

#[verifier::rlimit(100)]
fn parse_frame_value_exec(
    v: &Vec<char>,
    i: usize,
    key: &String,
    typ: Option<String>,
    event: Option<String>,
    data: Option<Payload>,
    errp: Option<Payload>,
) -> (r: Option<(Option<String>, Option<String>, Option<Payload>, Option<Payload>, usize)>)
    requires
        i <= v.len(),
    ensures
        pfv_res_view(r) == parse_frame_value(
            v@,
            i as int,
            key@,
            opt_str_view(typ),
            opt_str_view(event),
            opt_payload_view(data),
            opt_payload_view(errp),
        ),
        r matches Some((t, e, d, er, j)) ==> j <= v.len(),
{
    if str_eq(key.as_str(), "type") {
        match parse_string_exec(v, i) {
            Some((s, j)) => Some((Some(s), event, data, errp, j)),
            None => None,
        }
    } else if str_eq(key.as_str(), "event") {
        if i < v.len() && v[i] == '"' {
            match parse_str_body_exec(v, i + 1) {
                Some((s, j)) => Some((typ, Some(s), data, errp, j)),
                None => None,
            }
        } else if null_at_exec(v, i) {
            Some((typ, event, data, errp, i + 4))
        } else {
            None
        }
    } else if str_eq(key.as_str(), "data") {
        if i < v.len() && v[i] == '{' {
            match parse_payload_exec(v, i) {
                Some((p, j)) => Some((typ, event, Some(p), errp, j)),
                None => None,
            }
        } else if null_at_exec(v, i) {
            Some((typ, event, data, errp, i + 4))
        } else {
            None
        }
    } else if str_eq(key.as_str(), "error") {
        if i < v.len() && v[i] == '{' {
            match parse_payload_exec(v, i) {
                Some((p, j)) => Some((typ, event, data, Some(p), j)),
                None => None,
            }
        } else if null_at_exec(v, i) {
            Some((typ, event, data, errp, i + 4))
        } else {
            None
        }
    } else {
        None
    }
}

#[verifier::rlimit(100)]
fn parse_frame_members_exec(
    v: &Vec<char>,
    i: usize,
    typ: Option<String>,
    event: Option<String>,
    data: Option<Payload>,
    errp: Option<Payload>,
    fuel: usize,
) -> (r: Option<(Frame, usize)>)
    requires
        i <= v.len(),
    ensures
        fm_res_view(r) == parse_frame_members(
            v@,
            i as int,
            opt_str_view(typ),
            opt_str_view(event),
            opt_payload_view(data),
            opt_payload_view(errp),
            fuel as nat,
        ),
        r matches Some((f, j)) ==> j <= v.len(),
    decreases fuel,
{
    if fuel == 0 {
        return None;
    }
    match parse_string_exec(v, i) {
        None => None,
        Some((key, j1)) => {
            let j2 = skip_ws_exec(v, j1);
            if !(j2 < v.len() && v[j2] == ':') {
                return None;
            }
            let j3 = skip_ws_exec(v, j2 + 1);
            match parse_frame_value_exec(v, j3, &key, typ, event, data, errp) {
                None => None,
                Some((t2, e2, d2, r2, j4)) => {
                    let j5 = skip_ws_exec(v, j4);
                    if j5 < v.len() && v[j5] == ',' {
                        let j6 = skip_ws_exec(v, j5 + 1);
                        parse_frame_members_exec(v, j6, t2, e2, d2, r2, fuel - 1)
                    } else if j5 < v.len() && v[j5] == '}' {
                        match t2 {
                            Some(tv) => Some(
                                (Frame { typ: tv, event: e2, data: d2, error: r2 }, j5 + 1),
                            ),
                            None => None,
                        }
                    } else {
                        None
                    }
                },
            }
        },
    }
}

/// Parses one text frame from the peer, exactly as [`parse_frame`]
/// defines the grammar.
pub fn parse_frame_text(text: &str) -> (r: Option<Frame>)
    ensures
        match parse_frame(text@) {
            Some(fv) => r matches Some(f) && f@ == fv,
            None => r is None,
        },
{
    let v = chars_of(text);
    let i = skip_ws_exec(&v, 0);
    if i < v.len() && v[i] == '{' {
        let j = skip_ws_exec(&v, i + 1);
        if j < v.len() && v[j] == '}' {
            None
        } else {
            match parse_frame_members_exec(&v, j, None, None, None, None, v.len()) {
                Some((f, k)) => {
                    let e2 = skip_ws_exec(&v, k);
                    if e2 == v.len() {
                        Some(f)
                    } else {
                        None
                    }
                },
                None => None,
            }
        }
    } else {
        None
    }
}

} // verus!
