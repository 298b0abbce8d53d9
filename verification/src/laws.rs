//! Round-trip laws tying the codec's two directions together.

use vstd::prelude::*;
use crate::codec::{cmd_text, command_ok, esc_char, escape_seq, hex_char, json_string, uint_text, Command};
use crate::decode::{
    digits_end, digits_val, hex_val, is_digit, parse_frame_members,
    int_field, opt_str_field, opt_str_view, parse_frame_value, parse_int, parse_members,
    parse_payload, parse_pvalue, parse_str_body, parse_string, plookup, short_escape, skip_ws,
    str_field, FrameV, PVal, parse_frame,
};

verus! {

/// A character that the encoder leaves as itself inside a string.
pub open spec fn plain_char(c: char) -> bool {
    c != '"' && c != '\\' && c as u32 >= 32
}

/// A suffix of `s` that starts with `head` continues, past `head`,
/// with exactly `tail`.
proof fn lemma_skip_decompose(s: Seq<char>, i: int, head: Seq<char>, tail: Seq<char>)
    requires
        0 <= i <= s.len(),
        s.skip(i) == head + tail,
    ensures
        s.skip(i + head.len()) == tail,
{
    let d = head.len() as int;
    assert(s.skip(i).len() == s.len() - i);
    assert forall|k: int| 0 <= k < tail.len() implies s.skip(i + d)[k] == tail[k] by {
        assert(s.skip(i)[d + k] == (head + tail)[d + k]);
        assert((head + tail)[d + k] == tail[k]);
        assert(s.skip(i)[d + k] == s[i + d + k]);
        assert(s.skip(i + d)[k] == s[i + d + k]);
    }
    assert(s.skip(i + d) =~= tail);
}

/// Law (round trip, string leg): the escaped form of any string,
/// followed by its closing quote, parses back to exactly that string,
/// whatever follows the quote.
pub proof fn lemma_escape_round_trip(s: Seq<char>, i: int, t: Seq<char>, rest: Seq<char>)
    requires
        0 <= i <= s.len(),
        s.skip(i) == escape_seq(t) + seq!['"'] + rest,
    ensures
        parse_str_body(s, i) == Some((t, i + escape_seq(t).len() + 1)),
    decreases t.len(),
{
    let suffix = escape_seq(t) + seq!['"'] + rest;
    assert(s.skip(i).len() == s.len() - i);
    if t.len() == 0 {
        assert(escape_seq(t) =~= Seq::<char>::empty());
        assert(s[i] == s.skip(i)[0]);
        assert(suffix[0] == '"');
        assert(t =~= Seq::<char>::empty());
        assert(parse_str_body(s, i) == Some((t, i + escape_seq(t).len() + 1)));
    } else {
        let c = t[0];
        let t1 = t.skip(1);
        let e1 = escape_seq(t1);
        let tail = e1 + seq!['"'] + rest;
        assert(escape_seq(t) == esc_char(c) + e1);
        assert(seq![c] + t1 =~= t);
        assert(s.skip(i) =~= esc_char(c) + tail);
        lemma_skip_decompose(s, i, esc_char(c), tail);
        if c == '"' || c == '\\' {
            assert(esc_char(c) =~= seq!['\\', c]);
            assert(s[i] == s.skip(i)[0] && suffix[0] == '\\');
            assert(s[i + 1] == s.skip(i)[1] && suffix[1] == c);
            assert(short_escape(c) == Some(c));
            lemma_escape_round_trip(s, i + 2, t1, rest);
            assert(parse_str_body(s, i) == Some((t, i + escape_seq(t).len() + 1)));
        } else if (c as u32) < 32 {
            let code = (c as u32) as int;
            assert(esc_char(c) =~= seq![
                '\\',
                'u',
                '0',
                '0',
                hex_char(code / 16),
                hex_char(code % 16),
            ]);
            assert(s[i] == s.skip(i)[0] && suffix[0] == '\\');
            assert(s[i + 1] == s.skip(i)[1] && suffix[1] == 'u');
            assert(s[i + 2] == s.skip(i)[2] && suffix[2] == '0');
            assert(s[i + 3] == s.skip(i)[3] && suffix[3] == '0');
            assert(s[i + 4] == s.skip(i)[4] && suffix[4] == hex_char(code / 16));
            assert(s[i + 5] == s.skip(i)[5] && suffix[5] == hex_char(code % 16));
            assert(short_escape('u') is None);
            assert(hex_val(hex_char(code / 16)) == code / 16);
            assert(hex_val(hex_char(code % 16)) == code % 16);
            let parsed = 16 * hex_val(s[i + 4]) + hex_val(s[i + 5]);
            assert(parsed == code);
            assert((parsed as u8) as u32 == c as u32);
            vstd::utf8::char_u32_cast(c, (parsed as u8) as u32);
            assert((parsed as u8) as char == c);
            lemma_escape_round_trip(s, i + 6, t1, rest);
            assert(parse_str_body(s, i) == Some((t, i + escape_seq(t).len() + 1)));
        } else {
            assert(esc_char(c) =~= seq![c]);
            assert(s[i] == s.skip(i)[0] && suffix[0] == c);
            lemma_escape_round_trip(s, i + 1, t1, rest);
            assert(parse_str_body(s, i) == Some((t, i + escape_seq(t).len() + 1)));
        }
    }
}

/// Escaping leaves a string of plain characters unchanged.
proof fn lemma_escape_plain(t: Seq<char>)
    requires
        forall|k: int| 0 <= k < t.len() ==> plain_char(#[trigger] t[k]),
    ensures
        escape_seq(t) == t,
    decreases t.len(),
{
    if t.len() == 0 {
        assert(escape_seq(t) =~= t);
    } else {
        assert(plain_char(t[0]));
        assert(esc_char(t[0]) =~= seq![t[0]]);
        assert(forall|k: int| 0 <= k < t.skip(1).len() ==> plain_char(#[trigger] t.skip(1)[k]));
        lemma_escape_plain(t.skip(1));
        assert(escape_seq(t) =~= t);
    }
}

/// A string of plain characters followed by its closing quote parses
/// back to itself.
proof fn lemma_plain_str(s: Seq<char>, i: int, t: Seq<char>, rest: Seq<char>)
    requires
        0 <= i <= s.len(),
        forall|k: int| 0 <= k < t.len() ==> plain_char(#[trigger] t[k]),
        s.skip(i) == t + seq!['"'] + rest,
    ensures
        parse_str_body(s, i) == Some((t, i + t.len() + 1)),
{
    lemma_escape_plain(t);
    lemma_escape_round_trip(s, i, t, rest);
}

/// One object member, given its parsed parts: how `parse_members`
/// folds it, closing the object or continuing after a comma.
proof fn lemma_member_chain(s: Seq<char>, i: int, key: Seq<char>, v: PVal, j4: int, fuel: nat)
    requires
        fuel > 0,
        0 <= i,
        i + key.len() + 3 <= s.len(),
        parse_string(s, i) == Some((key, i + key.len() as int + 2)),
        s[i + key.len() as int + 2] == ':',
        parse_pvalue(s, i + key.len() as int + 3) == Some((v, j4)),
        0 <= j4 < s.len(),
    ensures
        s[j4] == '}' ==> parse_members(s, i, fuel) == Some((seq![(key, v)], j4 + 1)),
        s[j4] == ',' && j4 + 1 < s.len() && s[j4 + 1] == '"' ==> parse_members(s, i, fuel)
            == (match parse_members(s, j4 + 1, (fuel - 1) as nat) {
            Some((r, j)) => Some((seq![(key, v)] + r, j)),
            None => None,
        }),
{
    let kn = key.len() as int;
    assert(skip_ws(s, i + kn + 2) == i + kn + 2);
    assert(skip_ws(s, i + kn + 3) == i + kn + 3) by {
        assert(parse_pvalue(s, i + kn + 3) is Some);
    }
    if s[j4] == '}' {
        assert(skip_ws(s, j4) == j4);
        assert(parse_members(s, i, fuel) == Some((seq![(key, v)], j4 + 1)));
    }
    if s[j4] == ',' && j4 + 1 < s.len() && s[j4 + 1] == '"' {
        assert(skip_ws(s, j4) == j4);
        assert(skip_ws(s, j4 + 1) == j4 + 1);
    }
}

/// A JSON string value at `i` parses to exactly its content.
proof fn lemma_value_str(s: Seq<char>, i: int, val: Seq<char>, rest: Seq<char>)
    requires
        0 <= i <= s.len(),
        s.skip(i) == json_string(val) + rest,
    ensures
        parse_pvalue(s, i) == Some((PVal::S(val), i + json_string(val).len())),
{
    let el = escape_seq(val).len() as int;
    assert(s.skip(i).len() == s.len() - i);
    assert(s[i] == s.skip(i)[0]);
    assert((json_string(val) + rest)[0] == '"');
    assert(s.skip(i) =~= seq!['"'] + (escape_seq(val) + seq!['"'] + rest));
    lemma_skip_decompose(s, i, seq!['"'], escape_seq(val) + seq!['"'] + rest);
    lemma_escape_round_trip(s, i + 1, val, rest);
    assert(parse_str_body(s, i + 1) == Some((val, i + 1 + el + 1)));
    assert(json_string(val).len() == el + 2);
}

/// The literal `null` at `i` parses to the null value.
proof fn lemma_value_null(s: Seq<char>, i: int, rest: Seq<char>)
    requires
        0 <= i <= s.len(),
        s.skip(i) == "null"@ + rest,
    ensures
        parse_pvalue(s, i) == Some((PVal::Null, i + 4)),
{
    reveal_strlit("null");
    assert(s.skip(i).len() == s.len() - i);
    assert(s[i] == s.skip(i)[0] && s.skip(i)[0] == 'n');
    assert(s[i + 1] == s.skip(i)[1] && s.skip(i)[1] == 'u');
    assert(s[i + 2] == s.skip(i)[2] && s.skip(i)[2] == 'l');
    assert(s[i + 3] == s.skip(i)[3] && s.skip(i)[3] == 'l');
    assert(!is_digit('n'));
    assert(crate::decode::null_at(s, i));
}

/// Every character of a decimal rendering is a digit.
proof fn lemma_uint_text_digits(n: nat)
    ensures
        uint_text(n).len() >= 1,
        forall|k: int| 0 <= k < uint_text(n).len() ==> is_digit(#[trigger] uint_text(n)[k]),
    decreases n,
{
    if n < 10 {
        assert(is_digit(hex_char(n as int)));
    } else {
        lemma_uint_text_digits(n / 10);
        assert(is_digit(hex_char(n as int % 10)));
        assert(forall|k: int| 0 <= k < uint_text(n).len() ==> is_digit(
            #[trigger] uint_text(n)[k],
        )) by {
            assert(uint_text(n) == uint_text(n / 10) + seq![hex_char(n as int % 10)]);
        }
    }
}

/// A digit run bounded on both sides ends exactly at its boundary.
proof fn lemma_digits_end_run(s: Seq<char>, i: int, j: int)
    requires
        0 <= i <= j <= s.len(),
        forall|k: int| i <= k < j ==> is_digit(#[trigger] s[k]),
        j == s.len() || !is_digit(s[j]),
    ensures
        digits_end(s, i) == j,
    decreases j - i,
{
    if i < j {
        lemma_digits_end_run(s, i + 1, j);
    }
}

/// The value of the digit run of a decimal rendering is the number.
proof fn lemma_uint_val(s: Seq<char>, i: int, n: nat)
    requires
        0 <= i,
        i + uint_text(n).len() <= s.len(),
        forall|k: int| 0 <= k < uint_text(n).len() ==> s[i + k] == uint_text(n)[k],
    ensures
        digits_val(s, i, i + uint_text(n).len()) == n,
    decreases n,
{
    let l = uint_text(n).len() as int;
    if n < 10 {
        assert(s[i] == uint_text(n)[0]);
        assert(uint_text(n)[0] == hex_char(n as int));
        assert(hex_char(n as int) as u32 == 48 + n);
        assert(digits_val(s, i, i) == 0);
        assert(digits_val(s, i, i + 1) == digits_val(s, i, i) * 10 + (s[i] as u32 - 48));
        assert(digits_val(s, i, i + 1) == n);
    } else {
        let pre = uint_text(n / 10);
        assert(uint_text(n) == pre + seq![hex_char(n as int % 10)]);
        assert forall|k: int| 0 <= k < pre.len() implies s[i + k] == #[trigger] pre[k] by {
            assert(uint_text(n)[k] == pre[k]);
            assert(s[i + k] == uint_text(n)[k]);
        }
        lemma_uint_val(s, i, n / 10);
        assert(s[i + l - 1] == uint_text(n)[l - 1]);
        assert(uint_text(n)[l - 1] == hex_char(n as int % 10));
        assert(hex_char(n as int % 10) as u32 == 48 + n % 10);
        assert(digits_val(s, i, i + l) == digits_val(s, i, i + l - 1) * 10 + (s[i + l - 1] as u32
            - 48));
        assert(digits_val(s, i, i + l) == (n / 10) * 10 + n % 10);
    }
}

/// A small decimal rendering followed by a non-digit parses to its
/// number.
proof fn lemma_value_uint(s: Seq<char>, i: int, n: nat, rest: Seq<char>)
    requires
        0 <= i <= s.len(),
        n <= 255,
        s.skip(i) == uint_text(n) + rest,
        rest.len() > 0,
        !is_digit(rest[0]),
        rest[0] != '-',
    ensures
        parse_pvalue(s, i) == Some((PVal::I(n as int), i + uint_text(n).len())),
{
    let t = uint_text(n);
    let l = t.len() as int;
    lemma_uint_text_digits(n);
    assert(uint_text(n).len() <= 3) by {
        if n >= 10 {
            assert(uint_text(n).len() == uint_text(n / 10).len() + 1);
            if n / 10 >= 10 {
                assert(uint_text(n / 10).len() == uint_text(n / 10 / 10).len() + 1);
                assert(n / 10 / 10 < 10);
                assert(uint_text(n / 10 / 10).len() == 1);
            } else {
                assert(uint_text(n / 10).len() == 1);
            }
        } else {
            assert(uint_text(n).len() == 1);
        }
    }
    assert(s.skip(i).len() == s.len() - i);
    assert(forall|k: int| 0 <= k < l ==> s[i + k] == #[trigger] t[k]) by {
        assert(forall|k: int| 0 <= k < l ==> s.skip(i)[k] == #[trigger] t[k]);
        assert(forall|k: int| 0 <= k < l ==> #[trigger] s.skip(i)[k] == s[i + k]);
    }
    assert(forall|k: int| i <= k < i + l ==> is_digit(#[trigger] s[k])) by {
        assert(forall|k: int| i <= k < i + l ==> s[k] == t[k - i]);
    }
    assert(s[i + l] == rest[0]) by {
        assert(s.skip(i)[l] == (t + rest)[l]);
    }
    lemma_digits_end_run(s, i, i + l);
    lemma_uint_val(s, i, n);
    assert(s[i] == t[0]);
    assert(is_digit(s[i]) && s[i] != '-' && s[i] != '"');
    assert(digits_end(s, i) == i + l);
    assert(parse_int(s, i) == Some((n as int, i + l)));
}

/// Four plain characters and a closing quote parse as that key.
proof fn lemma_key_type(s: Seq<char>, i: int)
    requires
        0 <= i,
        i + 5 <= s.len(),
        s[i] == 't' && s[i + 1] == 'y' && s[i + 2] == 'p' && s[i + 3] == 'e' && s[i + 4] == '"',
    ensures
        parse_str_body(s, i) == Some(("type"@, i + 5)),
{
    reveal_strlit("type");
    reveal_with_fuel(parse_str_body, 8);
    assert(seq!['t'] + (seq!['y'] + (seq!['p'] + (seq!['e'] + Seq::<char>::empty()))) =~= "type"@);
}

/// Four plain characters and a closing quote parse as that key.
proof fn lemma_key_data(s: Seq<char>, i: int)
    requires
        0 <= i,
        i + 5 <= s.len(),
        s[i] == 'd' && s[i + 1] == 'a' && s[i + 2] == 't' && s[i + 3] == 'a' && s[i + 4] == '"',
    ensures
        parse_str_body(s, i) == Some(("data"@, i + 5)),
{
    reveal_strlit("data");
    reveal_with_fuel(parse_str_body, 8);
    assert(seq!['d'] + (seq!['a'] + (seq!['t'] + (seq!['a'] + Seq::<char>::empty()))) =~= "data"@);
}

/// The fixed characters of the canonical frame shell, by position.
#[verifier::rlimit(100)]
proof fn lemma_shell_chars(s: Seq<char>, tag: Seq<char>, d: Seq<char>)
    requires
        s == "{\"type\":\""@ + tag + "\",\"data\":"@ + d + "}"@,
    ensures
        s.len() == 19 + tag.len() + d.len(),
        s[0] == '{' && s[1] == '"',
        s[2] == 't' && s[3] == 'y' && s[4] == 'p' && s[5] == 'e',
        s[6] == '"' && s[7] == ':' && s[8] == '"',
        s.skip(9) == tag + ("\",\"data\":"@ + d + "}"@),
        s[9 + tag.len() as int] == '"',
        s[10 + tag.len() as int] == ',',
        s[11 + tag.len() as int] == '"',
        s[12 + tag.len() as int] == 'd' && s[13 + tag.len() as int] == 'a',
        s[14 + tag.len() as int] == 't' && s[15 + tag.len() as int] == 'a',
        s[16 + tag.len() as int] == '"' && s[17 + tag.len() as int] == ':',
        s.skip(18 + tag.len() as int) == d + "}"@,
        s[18 + tag.len() as int + d.len() as int] == '}',
{
    let h = "{\"type\":\""@;
    let m = "\",\"data\":"@;
    let tl = "}"@;
    let tn = tag.len() as int;
    let dn = d.len() as int;
    reveal_strlit("{\"type\":\"");
    reveal_strlit("\",\"data\":");
    reveal_strlit("}");
    assert(h.len() == 9);
    assert(m.len() == 9);
    assert(tl.len() == 1);
    assert(s.len() == 19 + tn + dn);
    assert(forall|k: int| 0 <= k < 9 ==> s[k] == h[k]);
    assert(s.skip(0) =~= h + (tag + (m + d + tl)));
    lemma_skip_decompose(s, 0, h, tag + (m + d + tl));
    assert(s.skip(9) =~= tag + (m + d + tl));
    lemma_skip_decompose(s, 9, tag, m + d + tl);
    assert(s.skip(9 + tn) == m + d + tl);
    assert(forall|k: int| 0 <= k < 9 ==> #[trigger] s.skip(9 + tn)[k] == m[k]);
    assert(forall|k: int| 0 <= k < 9 ==> #[trigger] s.skip(9 + tn)[k] == s[9 + tn + k]);
    assert(forall|k: int| 0 <= k < 9 ==> #[trigger] s[9 + tn + k] == m[k]);
    assert(s.skip(9 + tn) =~= m + (d + tl));
    lemma_skip_decompose(s, 9 + tn, m, d + tl);
    assert(s.skip(18 + tn) == d + tl);
    lemma_skip_decompose(s, 18 + tn, d, tl);
    assert(s.skip(18 + tn + dn) == tl);
    assert(s[18 + tn + dn] == s.skip(18 + tn + dn)[0]);
}

/// A canonical frame `{"type":"TAG","data":DATA}` parses to the frame
/// with that tag and that data payload, given that the tag string and
/// the data object parse as stated.
#[verifier::rlimit(100)]
proof fn lemma_frame_skeleton(
    s: Seq<char>,
    tag: Seq<char>,
    d: Seq<char>,
    es: Seq<(Seq<char>, PVal)>,
)
    requires
        s == "{\"type\":\""@ + tag + "\",\"data\":"@ + d + "}"@,
        parse_str_body(s, 9) == Some((tag, 10 + tag.len() as int)),
        parse_payload(s, 18 + tag.len() as int) == Some(
            (es, 18 + tag.len() as int + d.len() as int),
        ),
    ensures
        parse_frame(s) == Some(
            (FrameV { typ: tag, event: None, data: Some(es), error: None }),
        ),
{
    let tn = tag.len() as int;
    let dn = d.len() as int;
    lemma_shell_chars(s, tag, d);
    reveal_strlit("type");
    reveal_strlit("data");
    assert("type"@ != "data"@) by {
        reveal_strlit("type");
        reveal_strlit("data");
        assert("type"@[0] == 't' && "data"@[0] == 'd');
    }
    // walk the frame grammar
    assert(skip_ws(s, 0) == 0);
    assert(skip_ws(s, 1) == 1);
    // first member: "type":"TAG"
    assert(parse_string(s, 1) == parse_str_body(s, 2));
    lemma_key_type(s, 2);
    assert(skip_ws(s, 7) == 7);
    assert(skip_ws(s, 8) == 8);
    let pv1 = parse_frame_value(s, 8, "type"@, None, None, None, None);
    assert(parse_string(s, 8) == parse_str_body(s, 9));
    assert(pv1 == Some(
        (Some(tag), Option::<Seq<char>>::None, Option::<Seq<(Seq<char>, PVal)>>::None, Option::<
            Seq<(Seq<char>, PVal)>,
        >::None, 10 + tn),
    ));
    assert(skip_ws(s, 10 + tn) == 10 + tn);
    assert(skip_ws(s, 11 + tn) == 11 + tn);
    // second member: "data":{...}
    assert(parse_string(s, 11 + tn) == parse_str_body(s, 12 + tn));
    lemma_key_data(s, 12 + tn);
    assert(skip_ws(s, 17 + tn) == 17 + tn);
    assert(s[18 + tn] == d[0]) by {
        assert(s.skip(18 + tn) == d + "}"@);
        assert(s.skip(18 + tn)[0] == s[18 + tn]);
        assert(d.len() > 0);
    }
    assert(d[0] == '{') by {
        assert(parse_payload(s, 18 + tn) is Some);
    }
    assert(skip_ws(s, 18 + tn) == 18 + tn);
    assert("data"@ != "event"@) by {
        reveal_strlit("data");
        reveal_strlit("event");
        assert("data"@.len() == 4 && "event"@.len() == 5);
    }
    let pv2 = parse_frame_value(s, 18 + tn, "data"@, Some(tag), None, None, None);
    assert(pv2 == Some(
        (Some(tag), Option::<Seq<char>>::None, Some(es), Option::<Seq<(Seq<char>, PVal)>>::None, 18
            + tn + dn),
    ));
    assert(skip_ws(s, 18 + tn + dn) == 18 + tn + dn);
    // the two members compose into the frame
    let fuel = s.len();
    assert(parse_frame_members(s, 11 + tn, Some(tag), None, None, None, (fuel - 1) as nat)
        == Some((FrameV { typ: tag, event: None, data: Some(es), error: None }, 19 + tn + dn)));
    assert(parse_frame_members(s, 1, None, None, None, None, fuel) == Some(
        (FrameV { typ: tag, event: None, data: Some(es), error: None }, 19 + tn + dn),
    ));
    assert(skip_ws(s, 19 + tn + dn) == s.len());
    assert(s[1] != '}');
    assert(parse_frame(s) == Some(
        (FrameV { typ: tag, event: None, data: Some(es), error: None }),
    ));
}


/// A one-member payload object of a string field parses to that entry.
#[verifier::rlimit(100)]
proof fn lemma_payload_str1(s: Seq<char>, p: int, key: Seq<char>, val: Seq<char>, rest: Seq<char>)
    requires
        0 <= p <= s.len(),
        forall|k: int| 0 <= k < key.len() ==> plain_char(#[trigger] key[k]),
        s.skip(p) == (seq!['{', '"'] + key + seq!['"', ':'] + json_string(val) + seq!['}']) + rest,
    ensures
        parse_payload(s, p) == Some(
            (seq![(key, PVal::S(val))], p + key.len() + json_string(val).len() + 5),
        ),
{
    let kn = key.len() as int;
    let jl = json_string(val).len() as int;
    assert(s.skip(p).len() == s.len() - p);
    assert(s[p] == s.skip(p)[0] && s.skip(p)[0] == '{');
    assert(s[p + 1] == s.skip(p)[1] && s.skip(p)[1] == '"');
    assert(s.skip(p) =~= seq!['{', '"'] + (key + seq!['"', ':'] + json_string(val) + seq!['}']
        + rest));
    lemma_skip_decompose(s, p, seq!['{', '"'], key + seq!['"', ':'] + json_string(val) + seq!['}']
        + rest);
    assert(s.skip(p + 2) =~= key + seq!['"'] + (seq![':'] + json_string(val) + seq!['}'] + rest));
    lemma_plain_str(s, p + 2, key, seq![':'] + json_string(val) + seq!['}'] + rest);
    assert(parse_string(s, p + 1) == Some((key, p + kn + 3)));
    assert(s.skip(p + 2) =~= (key + seq!['"', ':']) + (json_string(val) + seq!['}'] + rest));
    lemma_skip_decompose(s, p + 2, key + seq!['"', ':'], json_string(val) + seq!['}'] + rest);
    assert(s.skip(p + kn + 4) == json_string(val) + seq!['}'] + rest);
    assert(s[p + kn + 3] == s.skip(p + 2)[kn + 1] && (key + seq!['"', ':'] + (json_string(val)
        + seq!['}'] + rest))[kn + 1] == ':');
    assert(s.skip(p + kn + 4) =~= json_string(val) + (seq!['}'] + rest));
    lemma_value_str(s, p + kn + 4, val, seq!['}'] + rest);
    let j4 = p + kn + 4 + jl;
    lemma_skip_decompose(s, p + kn + 4, json_string(val), seq!['}'] + rest);
    assert(s[j4] == s.skip(j4)[0] && (seq!['}'] + rest)[0] == '}');
    lemma_member_chain(s, p + 1, key, PVal::S(val), j4, s.len());
    assert(parse_members(s, p + 1, s.len()) == Some((seq![(key, PVal::S(val))], j4 + 1)));
    assert(skip_ws(s, p + 1) == p + 1);
    assert(parse_payload(s, p) == Some((seq![(key, PVal::S(val))], j4 + 1)));
}

/// A two-member payload object of string fields parses to those
/// entries in order.
#[verifier::rlimit(100)]
proof fn lemma_payload_str2(
    s: Seq<char>,
    p: int,
    k1: Seq<char>,
    v1: Seq<char>,
    k2: Seq<char>,
    v2: Seq<char>,
    rest: Seq<char>,
)
    requires
        0 <= p <= s.len(),
        forall|k: int| 0 <= k < k1.len() ==> plain_char(#[trigger] k1[k]),
        forall|k: int| 0 <= k < k2.len() ==> plain_char(#[trigger] k2[k]),
        s.skip(p) == (seq!['{', '"'] + k1 + seq!['"', ':'] + json_string(v1) + seq![',', '"'] + k2
            + seq!['"', ':'] + json_string(v2) + seq!['}']) + rest,
    ensures
        parse_payload(s, p) == Some(
            (
                seq![(k1, PVal::S(v1)), (k2, PVal::S(v2))],
                p + k1.len() + json_string(v1).len() + k2.len() + json_string(v2).len() + 9,
            ),
        ),
{
    let n1 = k1.len() as int;
    let j1 = json_string(v1).len() as int;
    let n2 = k2.len() as int;
    let j2 = json_string(v2).len() as int;
    let tail2 = seq!['"'] + k2 + seq!['"', ':'] + json_string(v2) + seq!['}'] + rest;
    assert(s.skip(p).len() == s.len() - p);
    assert(s[p] == s.skip(p)[0] && s.skip(p)[0] == '{');
    assert(s[p + 1] == s.skip(p)[1] && s.skip(p)[1] == '"');
    // first member
    assert(s.skip(p) =~= seq!['{', '"'] + (k1 + seq!['"', ':'] + json_string(v1) + seq![',']
        + tail2));
    lemma_skip_decompose(s, p, seq!['{', '"'], k1 + seq!['"', ':'] + json_string(v1) + seq![',']
        + tail2);
    assert(s.skip(p + 2) =~= k1 + seq!['"'] + (seq![':'] + json_string(v1) + seq![','] + tail2));
    lemma_plain_str(s, p + 2, k1, seq![':'] + json_string(v1) + seq![','] + tail2);
    assert(parse_string(s, p + 1) == Some((k1, p + n1 + 3)));
    assert(s.skip(p + 2) =~= (k1 + seq!['"', ':']) + (json_string(v1) + seq![','] + tail2));
    lemma_skip_decompose(s, p + 2, k1 + seq!['"', ':'], json_string(v1) + seq![','] + tail2);
    assert(s.skip(p + n1 + 4) == json_string(v1) + seq![','] + tail2);
    assert(s[p + n1 + 3] == s.skip(p + 2)[n1 + 1] && (k1 + seq!['"', ':'] + (json_string(v1)
        + seq![','] + tail2))[n1 + 1] == ':');
    assert(s.skip(p + n1 + 4) =~= json_string(v1) + (seq![','] + tail2));
    lemma_value_str(s, p + n1 + 4, v1, seq![','] + tail2);
    let c4 = p + n1 + 4 + j1;
    lemma_skip_decompose(s, p + n1 + 4, json_string(v1), seq![','] + tail2);
    assert(s[c4] == s.skip(c4)[0] && (seq![','] + tail2)[0] == ',');
    assert(s.skip(c4) =~= seq![','] + tail2);
    lemma_skip_decompose(s, c4, seq![','], tail2);
    assert(s.skip(c4 + 1) == tail2);
    assert(s[c4 + 1] == s.skip(c4 + 1)[0] && tail2[0] == '"');
    // second member
    let i2 = c4 + 1;
    assert(s.skip(i2) =~= seq!['"'] + (k2 + seq!['"', ':'] + json_string(v2) + seq!['}'] + rest));
    lemma_skip_decompose(s, i2, seq!['"'], k2 + seq!['"', ':'] + json_string(v2) + seq!['}']
        + rest);
    assert(s.skip(i2 + 1) =~= k2 + seq!['"'] + (seq![':'] + json_string(v2) + seq!['}'] + rest));
    lemma_plain_str(s, i2 + 1, k2, seq![':'] + json_string(v2) + seq!['}'] + rest);
    assert(parse_string(s, i2) == Some((k2, i2 + n2 + 2)));
    assert(s.skip(i2 + 1) =~= (k2 + seq!['"', ':']) + (json_string(v2) + seq!['}'] + rest));
    lemma_skip_decompose(s, i2 + 1, k2 + seq!['"', ':'], json_string(v2) + seq!['}'] + rest);
    assert(s.skip(i2 + n2 + 3) == json_string(v2) + seq!['}'] + rest);
    assert(s[i2 + n2 + 2] == s.skip(i2 + 1)[n2 + 1] && (k2 + seq!['"', ':'] + (json_string(v2)
        + seq!['}'] + rest))[n2 + 1] == ':');
    assert(s.skip(i2 + n2 + 3) =~= json_string(v2) + (seq!['}'] + rest));
    lemma_value_str(s, i2 + n2 + 3, v2, seq!['}'] + rest);
    let d4 = i2 + n2 + 3 + j2;
    lemma_skip_decompose(s, i2 + n2 + 3, json_string(v2), seq!['}'] + rest);
    assert(s[d4] == s.skip(d4)[0] && (seq!['}'] + rest)[0] == '}');
    lemma_member_chain(s, i2, k2, PVal::S(v2), d4, (s.len() - 1) as nat);
    assert(parse_members(s, i2, (s.len() - 1) as nat) == Some((seq![(k2, PVal::S(v2))], d4 + 1)));
    lemma_member_chain(s, p + 1, k1, PVal::S(v1), c4, s.len());
    assert(parse_members(s, p + 1, s.len()) == Some(
        (seq![(k1, PVal::S(v1))] + seq![(k2, PVal::S(v2))], d4 + 1),
    ));
    assert(seq![(k1, PVal::S(v1))] + seq![(k2, PVal::S(v2))] =~= seq![
        (k1, PVal::S(v1)),
        (k2, PVal::S(v2)),
    ]);
    assert(skip_ws(s, p + 1) == p + 1);
    assert(parse_payload(s, p) == Some(
        (seq![(k1, PVal::S(v1)), (k2, PVal::S(v2))], d4 + 1),
    ));
}


/// The text of an optional string field: a JSON string or `null`.
pub open spec fn opt_text(o: Option<Seq<char>>) -> Seq<char> {
    match o {
        None => "null"@,
        Some(v) => json_string(v),
    }
}

/// The parsed value of an optional string field.
pub open spec fn opt_pv(o: Option<Seq<char>>) -> PVal {
    match o {
        None => PVal::Null,
        Some(v) => PVal::S(v),
    }
}

/// An optional string field's text parses to its value.
proof fn lemma_value_opt(s: Seq<char>, i: int, o: Option<Seq<char>>, rest: Seq<char>)
    requires
        0 <= i <= s.len(),
        s.skip(i) == opt_text(o) + rest,
    ensures
        parse_pvalue(s, i) == Some((opt_pv(o), i + opt_text(o).len())),
{
    match o {
        None => {
            lemma_value_null(s, i, rest);
            reveal_strlit("null");
        },
        Some(v) => {
            lemma_value_str(s, i, v, rest);
        },
    }
}

/// The pieces of one object member `"key":VALUE` followed by one
/// separator character, located positionally.
#[verifier::rlimit(100)]
proof fn lemma_member_parts(
    s: Seq<char>,
    i: int,
    key: Seq<char>,
    vt: Seq<char>,
    sep: char,
    tail: Seq<char>,
)
    requires
        0 <= i <= s.len(),
        forall|k: int| 0 <= k < key.len() ==> plain_char(#[trigger] key[k]),
        s.skip(i) == (seq!['"'] + key + seq!['"', ':'] + vt + seq![sep]) + tail,
    ensures
        s[i] == '"',
        parse_string(s, i) == Some((key, i + key.len() + 2)),
        s[i + key.len() + 2] == ':',
        s.skip(i + key.len() + 3) == vt + (seq![sep] + tail),
        s[i + key.len() + 3 + vt.len()] == sep,
        i + key.len() + 3 + vt.len() < s.len(),
        s.skip(i + key.len() + 4 + vt.len()) == tail,
{
    let kn = key.len() as int;
    let vl = vt.len() as int;
    assert(s.skip(i).len() == s.len() - i);
    assert(s[i] == s.skip(i)[0] && ((seq!['"'] + key + seq!['"', ':'] + vt + seq![sep]) + tail)[0]
        == '"');
    assert(s.skip(i) =~= seq!['"'] + (key + seq!['"'] + (seq![':'] + vt + seq![sep] + tail)));
    lemma_skip_decompose(s, i, seq!['"'], key + seq!['"'] + (seq![':'] + vt + seq![sep] + tail));
    assert(s.skip(i + 1) =~= key + seq!['"'] + (seq![':'] + vt + seq![sep] + tail));
    lemma_plain_str(s, i + 1, key, seq![':'] + vt + seq![sep] + tail);
    assert(parse_string(s, i) == Some((key, i + kn + 2)));
    assert(s.skip(i + 1) =~= (key + seq!['"', ':']) + (vt + seq![sep] + tail));
    lemma_skip_decompose(s, i + 1, key + seq!['"', ':'], vt + seq![sep] + tail);
    assert(s.skip(i + kn + 3) == vt + seq![sep] + tail);
    assert(s[i + kn + 2] == s.skip(i + 1)[kn + 1] && ((key + seq!['"', ':']) + (vt + seq![sep]
        + tail))[kn + 1] == ':');
    assert(s.skip(i + kn + 3) =~= vt + (seq![sep] + tail));
    lemma_skip_decompose(s, i + kn + 3, vt, seq![sep] + tail);
    assert(s[i + kn + 3 + vl] == s.skip(i + kn + 3 + vl)[0] && (seq![sep] + tail)[0] == sep);
    lemma_skip_decompose(s, i + kn + 3 + vl, seq![sep], tail);
}

/// The hello payload object parses to its three entries.
#[verifier::rlimit(100)]
proof fn lemma_payload_hello(
    s: Seq<char>,
    p: int,
    n: u8,
    tok: Option<Seq<char>>,
    usr: Option<Seq<char>>,
    rest: Seq<char>,
)
    requires
        0 <= p <= s.len(),
        s.skip(p) == (seq!['{', '"'] + "protocol"@ + seq!['"', ':'] + uint_text(n as nat)
            + seq![',', '"'] + "token"@ + seq!['"', ':'] + opt_text(tok) + seq![',', '"'] + "user"@
            + seq!['"', ':'] + opt_text(usr) + seq!['}']) + rest,
    ensures
        parse_payload(s, p) == Some(
            (
                seq![
                    ("protocol"@, PVal::I(n as int)),
                    ("token"@, opt_pv(tok)),
                    ("user"@, opt_pv(usr)),
                ],
                p + 30 + uint_text(n as nat).len() + opt_text(tok).len() + opt_text(usr).len(),
            ),
        ),
{
    reveal_strlit("protocol");
    reveal_strlit("token");
    reveal_strlit("user");
    let nt = uint_text(n as nat);
    let nl = nt.len() as int;
    let t1 = opt_text(tok);
    let t1l = t1.len() as int;
    let t2 = opt_text(usr);
    let t2l = t2.len() as int;
    let tail2 = seq!['"'] + "token"@ + seq!['"', ':'] + t1 + seq![','] + (seq!['"'] + "user"@
        + seq!['"', ':'] + t2 + seq!['}'] + rest);
    let tail3 = seq!['"'] + "user"@ + seq!['"', ':'] + t2 + seq!['}'] + rest;
    assert(s.skip(p).len() == s.len() - p);
    assert(s[p] == s.skip(p)[0] && s.skip(p)[0] == '{');
    assert(s[p + 1] == s.skip(p)[1] && s.skip(p)[1] == '"');
    assert(forall|k: int| 0 <= k < "protocol"@.len() ==> plain_char(#[trigger] "protocol"@[k]));
    assert(forall|k: int| 0 <= k < "token"@.len() ==> plain_char(#[trigger] "token"@[k]));
    assert(forall|k: int| 0 <= k < "user"@.len() ==> plain_char(#[trigger] "user"@[k]));
    // first member: "protocol": N, ending at a comma
    assert(s.skip(p) =~= seq!['{'] + ((seq!['"'] + "protocol"@ + seq!['"', ':'] + nt + seq![','])
        + tail2));
    lemma_skip_decompose(s, p, seq!['{'], (seq!['"'] + "protocol"@ + seq!['"', ':'] + nt
        + seq![',']) + tail2);
    lemma_member_parts(s, p + 1, "protocol"@, nt, ',', tail2);
    assert(!is_digit(',') && ',' != '-');
    assert(s.skip(p + 12) == nt + (seq![','] + tail2));
    lemma_value_uint(s, p + 12, n as nat, seq![','] + tail2);
    let c4 = p + 12 + nl;
    let i2 = c4 + 1;
    assert(s.skip(i2) == tail2);
    assert(s[i2] == tail2[0] && tail2[0] == '"') by {
        assert(s[i2] == s.skip(i2)[0]);
    }
    // second member: "token": V, ending at a comma
    assert(s.skip(i2) =~= (seq!['"'] + "token"@ + seq!['"', ':'] + t1 + seq![',']) + tail3);
    lemma_member_parts(s, i2, "token"@, t1, ',', tail3);
    lemma_value_opt(s, i2 + 8, tok, seq![','] + tail3);
    let d4 = i2 + 8 + t1l;
    let i3 = d4 + 1;
    assert(s.skip(i3) == tail3);
    assert(s[i3] == tail3[0] && tail3[0] == '"') by {
        assert(s[i3] == s.skip(i3)[0]);
    }
    // third member: "user": V, closing the object
    assert(s.skip(i3) =~= (seq!['"'] + "user"@ + seq!['"', ':'] + t2 + seq!['}']) + rest);
    lemma_member_parts(s, i3, "user"@, t2, '}', rest);
    lemma_value_opt(s, i3 + 7, usr, seq!['}'] + rest);
    let e4 = i3 + 7 + t2l;
    // fold the three members
    lemma_member_chain(s, i3, "user"@, opt_pv(usr), e4, (s.len() - 2) as nat);
    assert(parse_members(s, i3, (s.len() - 2) as nat) == Some(
        (seq![("user"@, opt_pv(usr))], e4 + 1),
    ));
    lemma_member_chain(s, i2, "token"@, opt_pv(tok), d4, (s.len() - 1) as nat);
    assert(parse_members(s, i2, (s.len() - 1) as nat) == Some(
        (seq![("token"@, opt_pv(tok))] + seq![("user"@, opt_pv(usr))], e4 + 1),
    ));
    lemma_member_chain(s, p + 1, "protocol"@, PVal::I(n as int), c4, s.len());
    assert(parse_members(s, p + 1, s.len()) == Some(
        (
            seq![("protocol"@, PVal::I(n as int))] + (seq![("token"@, opt_pv(tok))] + seq![
                ("user"@, opt_pv(usr)),
            ]),
            e4 + 1,
        ),
    ));
    assert(seq![("protocol"@, PVal::I(n as int))] + (seq![("token"@, opt_pv(tok))] + seq![
        ("user"@, opt_pv(usr)),
    ]) =~= seq![("protocol"@, PVal::I(n as int)), ("token"@, opt_pv(tok)), ("user"@, opt_pv(usr))]);
    assert(skip_ws(s, p + 1) == p + 1);
    assert(parse_payload(s, p) == Some(
        (
            seq![("protocol"@, PVal::I(n as int)), ("token"@, opt_pv(tok)), ("user"@, opt_pv(usr))],
            e4 + 1,
        ),
    ));
}


/// The round trip for a join command.
#[verifier::rlimit(100)]
proof fn lemma_rt_join(room: String)
    ensures
        parse_frame(cmd_text(Command::Join { room })) is Some,
        command_ok(
            parse_frame(cmd_text(Command::Join { room }))->Some_0,
            Some(Command::Join { room }),
        ),
{
    let c = Command::Join { room };
    let s = cmd_text(c);
    let tag = "join"@;
    let j = json_string(room@);
    let d = seq!['{', '"'] + "room"@ + seq!['"', ':'] + j + seq!['}'];
    let m = "\",\"data\":"@;
    reveal_strlit("{\"type\":\"join\",\"data\":{\"room\":");
    reveal_strlit("{\"type\":\"");
    reveal_strlit("join");
    reveal_strlit("\",\"data\":");
    reveal_strlit("room");
    reveal_strlit("}}");
    reveal_strlit("}");
    reveal_strlit("hello");
    assert(s =~= "{\"type\":\""@ + tag + "\",\"data\":"@ + d + "}"@);
    lemma_shell_chars(s, tag, d);
    assert(s.skip(9) =~= tag + seq!['"'] + (m.skip(1) + (d + "}"@))) by {
        assert(s.skip(9) == tag + (m + d + "}"@));
        assert(m[0] == '"');
    }
    assert(forall|k: int| 0 <= k < tag.len() ==> plain_char(#[trigger] tag[k]));
    lemma_plain_str(s, 9, tag, m.skip(1) + (d + "}"@));
    assert(s.skip(22) == d + "}"@);
    assert(s.skip(22) =~= (seq!['{', '"'] + "room"@ + seq!['"', ':'] + j + seq!['}']) + "}"@);
    assert(forall|k: int| 0 <= k < "room"@.len() ==> plain_char(#[trigger] "room"@[k]));
    lemma_payload_str1(s, 22, "room"@, room@, "}"@);
    let es = seq![("room"@, PVal::S(room@))];
    assert(parse_payload(s, 22) == Some((es, 22int + 4 + j.len() + 5)));
    assert(22 + 4 + j.len() + 5 == 18 + tag.len() + d.len());
    lemma_frame_skeleton(s, tag, d, es);
    let fv = FrameV { typ: tag, event: None, data: Some(es), error: None };
    assert(parse_frame(s) == Some(fv));
    assert(tag != "hello"@) by {
        assert(tag.len() == 4 && "hello"@.len() == 5);
    }
    assert(plookup(es, "room"@) == Some(PVal::S(room@)));
    assert(str_field(es, "room"@) == Some(room@));
    assert(command_ok(fv, Some(c)));
}

/// The round trip for a leave command.
#[verifier::rlimit(100)]
proof fn lemma_rt_leave(room: String)
    ensures
        parse_frame(cmd_text(Command::Leave { room })) is Some,
        command_ok(
            parse_frame(cmd_text(Command::Leave { room }))->Some_0,
            Some(Command::Leave { room }),
        ),
{
    let c = Command::Leave { room };
    let s = cmd_text(c);
    let tag = "leave"@;
    let j = json_string(room@);
    let d = seq!['{', '"'] + "room"@ + seq!['"', ':'] + j + seq!['}'];
    let m = "\",\"data\":"@;
    reveal_strlit("{\"type\":\"leave\",\"data\":{\"room\":");
    reveal_strlit("{\"type\":\"");
    reveal_strlit("leave");
    reveal_strlit("\",\"data\":");
    reveal_strlit("room");
    reveal_strlit("}}");
    reveal_strlit("}");
    reveal_strlit("hello");
    reveal_strlit("join");
    assert(s =~= "{\"type\":\""@ + tag + "\",\"data\":"@ + d + "}"@);
    lemma_shell_chars(s, tag, d);
    assert(s.skip(9) =~= tag + seq!['"'] + (m.skip(1) + (d + "}"@))) by {
        assert(s.skip(9) == tag + (m + d + "}"@));
        assert(m[0] == '"');
    }
    assert(forall|k: int| 0 <= k < tag.len() ==> plain_char(#[trigger] tag[k]));
    lemma_plain_str(s, 9, tag, m.skip(1) + (d + "}"@));
    assert(s.skip(23) == d + "}"@);
    assert(s.skip(23) =~= (seq!['{', '"'] + "room"@ + seq!['"', ':'] + j + seq!['}']) + "}"@);
    assert(forall|k: int| 0 <= k < "room"@.len() ==> plain_char(#[trigger] "room"@[k]));
    lemma_payload_str1(s, 23, "room"@, room@, "}"@);
    let es = seq![("room"@, PVal::S(room@))];
    assert(parse_payload(s, 23) == Some((es, 23int + 4 + j.len() + 5)));
    assert(23 + 4 + j.len() + 5 == 18 + tag.len() + d.len());
    lemma_frame_skeleton(s, tag, d, es);
    let fv = FrameV { typ: tag, event: None, data: Some(es), error: None };
    assert(parse_frame(s) == Some(fv));
    assert(tag != "hello"@) by {
        assert(tag[0] == 'l' && "hello"@[0] == 'h');
    }
    assert(tag != "join"@) by {
        assert(tag.len() == 5 && "join"@.len() == 4);
    }
    assert(plookup(es, "room"@) == Some(PVal::S(room@)));
    assert(str_field(es, "room"@) == Some(room@));
    assert(command_ok(fv, Some(c)));
}

/// The text of a message command, in shell-and-payload form.
#[verifier::rlimit(100)]
proof fn lemma_msg_text_shape(room: String, text: String)
    ensures
        cmd_text(Command::Msg { room, text }) == "{\"type\":\""@ + "msg"@ + "\",\"data\":"@
            + (seq!['{', '"'] + "room"@ + seq!['"', ':'] + json_string(room@) + seq![',', '"']
            + "text"@ + seq!['"', ':'] + json_string(text@) + seq!['}']) + "}"@,
{
    reveal_strlit("{\"type\":\"msg\",\"data\":{\"room\":");
    reveal_strlit(",\"text\":");
    reveal_strlit("{\"type\":\"");
    reveal_strlit("msg");
    reveal_strlit("\",\"data\":");
    reveal_strlit("room");
    reveal_strlit("text");
    reveal_strlit("}}");
    reveal_strlit("}");
    assert(cmd_text(Command::Msg { room, text }) =~= "{\"type\":\""@ + "msg"@ + "\",\"data\":"@
        + (seq!['{', '"'] + "room"@ + seq!['"', ':'] + json_string(room@) + seq![',', '"']
        + "text"@ + seq!['"', ':'] + json_string(text@) + seq!['}']) + "}"@);
}

/// A frame with tag `msg` and the two string fields reads back as the
/// message command.
proof fn lemma_msg_read(room: String, text: String, fv: FrameV)
    requires
        fv.typ == "msg"@,
        fv.data == Some(seq![("room"@, PVal::S(room@)), ("text"@, PVal::S(text@))]),
    ensures
        command_ok(fv, Some(Command::Msg { room, text })),
{
    let es = seq![("room"@, PVal::S(room@)), ("text"@, PVal::S(text@))];
    reveal_strlit("msg");
    reveal_strlit("hello");
    reveal_strlit("join");
    reveal_strlit("leave");
    reveal_strlit("room");
    reveal_strlit("text");
    assert("msg"@ != "hello"@ && "msg"@ != "join"@ && "msg"@ != "leave"@) by {
        assert("msg"@.len() == 3 && "hello"@.len() == 5 && "join"@.len() == 4 && "leave"@.len()
            == 5);
    }
    assert("room"@ != "text"@) by {
        assert("room"@[0] == 'r' && "text"@[0] == 't');
    }
    assert(plookup(es, "room"@) == Some(PVal::S(room@)));
    assert(es.skip(1) =~= seq![("text"@, PVal::S(text@))]);
    assert(plookup(es.skip(1), "text"@) == Some(PVal::S(text@))) by {
        assert(es.skip(1)[0] == ("text"@, PVal::S(text@)));
    }
    assert(plookup(es, "text"@) == Some(PVal::S(text@)));
    assert(str_field(es, "room"@) == Some(room@));
    assert(str_field(es, "text"@) == Some(text@));
}

/// The round trip for a message command.
#[verifier::rlimit(100)]
proof fn lemma_rt_msg(room: String, text: String)
    ensures
        parse_frame(cmd_text(Command::Msg { room, text })) is Some,
        command_ok(
            parse_frame(cmd_text(Command::Msg { room, text }))->Some_0,
            Some(Command::Msg { room, text }),
        ),
{
    let c = Command::Msg { room, text };
    let s = cmd_text(c);
    let tag = "msg"@;
    let j1 = json_string(room@);
    let j2 = json_string(text@);
    let d = seq!['{', '"'] + "room"@ + seq!['"', ':'] + j1 + seq![',', '"'] + "text"@ + seq![
        '"',
        ':',
    ] + j2 + seq!['}'];
    let m = "\",\"data\":"@;
    reveal_strlit("{\"type\":\"");
    reveal_strlit("msg");
    reveal_strlit("\",\"data\":");
    reveal_strlit("room");
    reveal_strlit("text");
    reveal_strlit("}");
    lemma_msg_text_shape(room, text);
    lemma_shell_chars(s, tag, d);
    assert(s.skip(9) =~= tag + seq!['"'] + (m.skip(1) + (d + "}"@))) by {
        assert(s.skip(9) == tag + (m + d + "}"@));
        assert(m[0] == '"');
    }
    assert(forall|k: int| 0 <= k < tag.len() ==> plain_char(#[trigger] tag[k]));
    lemma_plain_str(s, 9, tag, m.skip(1) + (d + "}"@));
    assert(s.skip(21) == d + "}"@);
    assert(s.skip(21) =~= (seq!['{', '"'] + "room"@ + seq!['"', ':'] + j1 + seq![',', '"']
        + "text"@ + seq!['"', ':'] + j2 + seq!['}']) + "}"@);
    assert(forall|k: int| 0 <= k < "room"@.len() ==> plain_char(#[trigger] "room"@[k]));
    assert(forall|k: int| 0 <= k < "text"@.len() ==> plain_char(#[trigger] "text"@[k]));
    lemma_payload_str2(s, 21, "room"@, room@, "text"@, text@, "}"@);
    let es = seq![("room"@, PVal::S(room@)), ("text"@, PVal::S(text@))];
    assert(parse_payload(s, 21) == Some((es, 21int + 4 + j1.len() + 4 + j2.len() + 9)));
    assert(21int + 4 + j1.len() + 4 + j2.len() + 9 == 18 + tag.len() + d.len());
    lemma_frame_skeleton(s, tag, d, es);
    let fv = FrameV { typ: tag, event: None, data: Some(es), error: None };
    assert(parse_frame(s) == Some(fv));
    lemma_msg_read(room, text, fv);
}

/// The text of a hello command, in shell-and-payload form.
#[verifier::rlimit(100)]
proof fn lemma_hello_text_shape(protocol: u8, token: Option<String>, user: Option<String>)
    ensures
        cmd_text(Command::Hello { protocol, token, user }) == "{\"type\":\""@ + "hello"@
            + "\",\"data\":"@ + (seq!['{', '"'] + "protocol"@ + seq!['"', ':'] + uint_text(
            protocol as nat,
        ) + seq![',', '"'] + "token"@ + seq!['"', ':'] + crate::codec::opt_json_string(token)
            + seq![',', '"'] + "user"@ + seq!['"', ':'] + crate::codec::opt_json_string(user)
            + seq!['}']) + "}"@,
{
    reveal_strlit("{\"type\":\"hello\",\"data\":{\"protocol\":");
    reveal_strlit(",\"token\":");
    reveal_strlit(",\"user\":");
    reveal_strlit("{\"type\":\"");
    reveal_strlit("hello");
    reveal_strlit("\",\"data\":");
    reveal_strlit("protocol");
    reveal_strlit("token");
    reveal_strlit("user");
    reveal_strlit("}}");
    reveal_strlit("}");
    assert(cmd_text(Command::Hello { protocol, token, user }) =~= "{\"type\":\""@ + "hello"@
        + "\",\"data\":"@ + (seq!['{', '"'] + "protocol"@ + seq!['"', ':'] + uint_text(
        protocol as nat,
    ) + seq![',', '"'] + "token"@ + seq!['"', ':'] + crate::codec::opt_json_string(token)
        + seq![',', '"'] + "user"@ + seq!['"', ':'] + crate::codec::opt_json_string(user)
        + seq!['}']) + "}"@);
}

/// A frame with tag `hello` and the three fields reads back as the
/// hello command.
proof fn lemma_hello_read(
    protocol: u8,
    token: Option<String>,
    user: Option<String>,
    tokv: Option<Seq<char>>,
    usrv: Option<Seq<char>>,
    fv: FrameV,
)
    requires
        tokv == opt_str_view(token),
        usrv == opt_str_view(user),
        fv.typ == "hello"@,
        fv.data == Some(
            seq![
                ("protocol"@, PVal::I(protocol as int)),
                ("token"@, opt_pv(tokv)),
                ("user"@, opt_pv(usrv)),
            ],
        ),
    ensures
        command_ok(fv, Some(Command::Hello { protocol, token, user })),
{
    let es = seq![
        ("protocol"@, PVal::I(protocol as int)),
        ("token"@, opt_pv(tokv)),
        ("user"@, opt_pv(usrv)),
    ];
    reveal_strlit("hello");
    reveal_strlit("protocol");
    reveal_strlit("token");
    reveal_strlit("user");
    assert("protocol"@ != "token"@ && "protocol"@ != "user"@ && "token"@ != "user"@) by {
        assert("protocol"@.len() == 8 && "token"@.len() == 5 && "user"@.len() == 4);
    }
    assert(plookup(es, "protocol"@) == Some(PVal::I(protocol as int)));
    assert(int_field(es, "protocol"@) == Some(protocol as int));
    assert(es.skip(1) =~= seq![("token"@, opt_pv(tokv)), ("user"@, opt_pv(usrv))]);
    assert(es.skip(1).skip(1) =~= seq![("user"@, opt_pv(usrv))]);
    assert(plookup(es.skip(1), "token"@) == Some(opt_pv(tokv))) by {
        assert(es.skip(1)[0] == ("token"@, opt_pv(tokv)));
    }
    assert(plookup(es, "token"@) == Some(opt_pv(tokv)));
    assert(plookup(es.skip(1), "user"@) == plookup(es.skip(1).skip(1), "user"@)) by {
        assert(es.skip(1)[0] == ("token"@, opt_pv(tokv)));
    }
    assert(plookup(es, "user"@) == Some(opt_pv(usrv)));
    assert(opt_str_field(es, "token"@) == Some(opt_str_view(token)));
    assert(opt_str_field(es, "user"@) == Some(opt_str_view(user)));
}

/// The round trip for a hello command.
#[verifier::rlimit(100)]
proof fn lemma_rt_hello(protocol: u8, token: Option<String>, user: Option<String>)
    ensures
        parse_frame(cmd_text(Command::Hello { protocol, token, user })) is Some,
        command_ok(
            parse_frame(cmd_text(Command::Hello { protocol, token, user }))->Some_0,
            Some(Command::Hello { protocol, token, user }),
        ),
{
    let c = Command::Hello { protocol, token, user };
    let s = cmd_text(c);
    let tag = "hello"@;
    let tokv: Option<Seq<char>> = match token {
        None => None,
        Some(t) => Some(t@),
    };
    let usrv: Option<Seq<char>> = match user {
        None => None,
        Some(u) => Some(u@),
    };
    let nt = uint_text(protocol as nat);
    let t1 = opt_text(tokv);
    let t2 = opt_text(usrv);
    let d = seq!['{', '"'] + "protocol"@ + seq!['"', ':'] + nt + seq![',', '"'] + "token"@ + seq![
        '"',
        ':',
    ] + t1 + seq![',', '"'] + "user"@ + seq!['"', ':'] + t2 + seq!['}'];
    let m = "\",\"data\":"@;
    reveal_strlit("{\"type\":\"");
    reveal_strlit("hello");
    reveal_strlit("\",\"data\":");
    reveal_strlit("protocol");
    reveal_strlit("token");
    reveal_strlit("user");
    reveal_strlit("}");
    assert(crate::codec::opt_json_string(token) == t1);
    assert(crate::codec::opt_json_string(user) == t2);
    lemma_hello_text_shape(protocol, token, user);
    lemma_shell_chars(s, tag, d);
    assert(s.skip(9) =~= tag + seq!['"'] + (m.skip(1) + (d + "}"@))) by {
        assert(s.skip(9) == tag + (m + d + "}"@));
        assert(m[0] == '"');
    }
    assert(forall|k: int| 0 <= k < tag.len() ==> plain_char(#[trigger] tag[k]));
    lemma_plain_str(s, 9, tag, m.skip(1) + (d + "}"@));
    assert(s.skip(23) == d + "}"@);
    assert(s.skip(23) =~= (seq!['{', '"'] + "protocol"@ + seq!['"', ':'] + nt + seq![',', '"']
        + "token"@ + seq!['"', ':'] + t1 + seq![',', '"'] + "user"@ + seq!['"', ':'] + t2
        + seq!['}']) + "}"@);
    lemma_payload_hello(s, 23, protocol, tokv, usrv, "}"@);
    let es = seq![
        ("protocol"@, PVal::I(protocol as int)),
        ("token"@, opt_pv(tokv)),
        ("user"@, opt_pv(usrv)),
    ];
    assert(parse_payload(s, 23) == Some((es, 23int + 30 + nt.len() + t1.len() + t2.len())));
    assert(23int + 30 + nt.len() + t1.len() + t2.len() == 18 + tag.len() + d.len());
    lemma_frame_skeleton(s, tag, d, es);
    let fv = FrameV { typ: tag, event: None, data: Some(es), error: None };
    assert(parse_frame(s) == Some(fv));
    lemma_hello_read(protocol, token, user, tokv, usrv, fv);
}

/// Law (round trip): the canonical text frame of any command parses
/// back to a frame that a peer reads as exactly that command.
pub proof fn lemma_command_round_trip(c: Command)
    ensures
        parse_frame(cmd_text(c)) is Some,
        command_ok(parse_frame(cmd_text(c))->Some_0, Some(c)),
{
    match c {
        Command::Hello { protocol, token, user } => lemma_rt_hello(protocol, token, user),
        Command::Join { room } => lemma_rt_join(room),
        Command::Leave { room } => lemma_rt_leave(room),
        Command::Msg { room, text } => lemma_rt_msg(room, text),
    }
}

} // verus!
