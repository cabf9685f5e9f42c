//! Wire codec of the prompt model: the JSON shape of prompts and
//! expected-input declarations, with escaped text content and base64 binary
//! content.
//!
//! The reader is canonical: it accepts exactly the forms the writer emits.

use vstd::prelude::*;

use vstd::arithmetic::div_mod::lemma_fundamental_div_mod;

use crate::types::{
    AILanguageModelExpectedInput, AILanguageModelPromptRole, ExpectedInputKind, ExpectedInputView,
    PromptView,
};

verus! {

/// The lowercase hex digit of a value below sixteen.
pub open spec fn hex_digit(v: int) -> char {
    if v < 10 {
        ((48 + v) as u8) as char
    } else {
        ((87 + v) as u8) as char
    }
}

/// The value of a lowercase hex digit.
pub open spec fn hex_val(c: char) -> int {
    if 48 <= (c as u32) && (c as u32) <= 57 {
        (c as u32) - 48
    } else {
        (c as u32) - 87
    }
}

/// A lowercase hexadecimal digit.
pub open spec fn is_hex_lower(c: char) -> bool {
    (48 <= (c as u32) && (c as u32) <= 57) || (97 <= (c as u32) && (c as u32) <= 102)
}

/// A character below code 128 survives the round trip through its code.
pub proof fn lemma_char_code_roundtrip(c: char)
    requires
        (c as u32) < 128,
    ensures
        (((c as u32) as u8) as char) == c,
{
}

/// A byte below 128 survives the round trip through a character.
pub proof fn lemma_code_char_roundtrip(b: u8)
    requires
        b < 128,
    ensures
        ((b as char) as u32) == b,
{
}

pub proof fn lemma_hex_digit(v: int)
    requires
        0 <= v < 16,
    ensures
        is_hex_lower(hex_digit(v)),
        hex_val(hex_digit(v)) == v,
{
}

/// The characters allowed after a backslash as a two-character escape.
pub open spec fn is_named_escape(e: char) -> bool {
    e == '"' || e == '\\' || e == 'b' || e == 't' || e == 'n' || e == 'f' || e == 'r'
}

/// What a two-character escape decodes to.
pub open spec fn named_escape_value(e: char) -> char {
    if e == '"' {
        '"'
    } else if e == '\\' {
        '\\'
    } else if e == 'b' {
        8u8 as char
    } else if e == 't' {
        9u8 as char
    } else if e == 'n' {
        10u8 as char
    } else if e == 'f' {
        12u8 as char
    } else {
        13u8 as char
    }
}

/// The control codes that escape by name rather than as a four-digit code.
pub open spec fn code_has_named_escape(n: int) -> bool {
    n == 8 || n == 9 || n == 10 || n == 12 || n == 13
}

/// How one character appears inside a JSON string body: quote and backslash
/// escape by name, control characters by name where one exists and as
/// `\u00..` otherwise, and every other character stands for itself.
pub open spec fn escape_char(c: char) -> Seq<char> {
    let n = c as u32;
    if c == '"' {
        seq!['\\', '"']
    } else if c == '\\' {
        seq!['\\', '\\']
    } else if n == 8 {
        seq!['\\', 'b']
    } else if n == 9 {
        seq!['\\', 't']
    } else if n == 10 {
        seq!['\\', 'n']
    } else if n == 12 {
        seq!['\\', 'f']
    } else if n == 13 {
        seq!['\\', 'r']
    } else if n < 32 {
        seq!['\\', 'u', '0', '0', hex_digit(n as int / 16), hex_digit(n as int % 16)]
    } else {
        seq![c]
    }
}

/// A whole string escaped for a JSON string body.
pub open spec fn escape_string(s: Seq<char>) -> Seq<char>
    decreases s.len(),
{
    if s.len() == 0 {
        Seq::empty()
    } else {
        escape_char(s[0]) + escape_string(s.drop_first())
    }
}

/// A character that stands for itself inside a JSON string body.
pub open spec fn char_is_plain(c: char) -> bool {
    c != '"' && c != '\\' && (c as u32) >= 32
}

/// A string of plain characters is its own escape.
pub proof fn lemma_escape_plain(t: Seq<char>)
    requires
        forall|i: int| 0 <= i < t.len() ==> char_is_plain(t[i]),
    ensures
        escape_string(t) == t,
    decreases t.len(),
{
    if t.len() > 0 {
        assert(forall|i: int|
            0 <= i < t.drop_first().len() ==> t.drop_first()[i] == t[i + 1]);
        lemma_escape_plain(t.drop_first());
        assert(escape_char(t[0]) =~= seq![t[0]]);
        assert(seq![t[0]] + t.drop_first() =~= t);
    }
}

/// Escaping one more character appends that character's escape.
pub proof fn lemma_escape_string_push(t: Seq<char>, c: char)
    ensures
        escape_string(t.push(c)) == escape_string(t) + escape_char(c),
    decreases t.len(),
{
    if t.len() == 0 {
        assert(t.push(c)[0] == c);
        assert(t.push(c).drop_first() =~= Seq::<char>::empty());
        assert(escape_char(c) + escape_string(Seq::<char>::empty()) =~= escape_char(c));
        assert(escape_string(t) + escape_char(c) =~= escape_char(c));
    } else {
        assert(t.push(c)[0] == t[0]);
        assert(t.push(c).drop_first() =~= t.drop_first().push(c));
        lemma_escape_string_push(t.drop_first(), c);
        assert(escape_char(t[0]) + (escape_string(t.drop_first()) + escape_char(c)) =~= (
        escape_char(t[0]) + escape_string(t.drop_first())) + escape_char(c));
    }
}

/// Parse a JSON string body up to its closing quote, decoding exactly the
/// escapes of [`escape_char`]: the decoded characters and what follows the
/// closing quote.
pub open spec fn parse_jstring(s: Seq<char>) -> Option<(Seq<char>, Seq<char>)>
    decreases s.len(),
{
    if s.len() == 0 {
        None
    } else if s[0] == '"' {
        Some((Seq::empty(), s.drop_first()))
    } else if s[0] == '\\' {
        if s.len() >= 2 && is_named_escape(s[1]) {
            match parse_jstring(s.skip(2)) {
                Some((d, rest)) => Some((seq![named_escape_value(s[1])] + d, rest)),
                None => None,
            }
        } else if s.len() >= 6 && s[1] == 'u' && s[2] == '0' && s[3] == '0' && is_hex_lower(s[4])
            && is_hex_lower(s[5]) && hex_val(s[4]) * 16 + hex_val(s[5]) < 32
            && !code_has_named_escape(hex_val(s[4]) * 16 + hex_val(s[5])) {
            match parse_jstring(s.skip(6)) {
                Some((d, rest)) => Some(
                    (seq![((hex_val(s[4]) * 16 + hex_val(s[5])) as u8) as char] + d, rest),
                ),
                None => None,
            }
        } else {
            None
        }
    } else if (s[0] as u32) >= 32 {
        match parse_jstring(s.drop_first()) {
            Some((d, rest)) => Some((seq![s[0]] + d, rest)),
            None => None,
        }
    } else {
        None
    }
}

/// Escaping and the string-body parser are inverse: the parser consumes the
/// escaped text, stops at the closing quote, and decodes the original back.
pub proof fn lemma_parse_escape_string(t: Seq<char>, rest: Seq<char>)
    ensures
        parse_jstring(escape_string(t) + seq!['"'] + rest) == Some((t, rest)),
    decreases t.len(),
{
    let s = escape_string(t) + seq!['"'] + rest;
    if t.len() == 0 {
        assert(escape_string(t) =~= Seq::<char>::empty());
        assert(s[0] == '"');
        assert(s.drop_first() =~= rest);
    } else {
        let c = t[0];
        let n = c as u32;
        let t1 = t.drop_first();
        lemma_parse_escape_string(t1, rest);
        let s1 = escape_string(t1) + seq!['"'] + rest;
        assert(escape_string(t) == escape_char(c) + escape_string(t1));
        assert(seq![c] + t1 =~= t);
        if c == '"' || c == '\\' || n == 8 || n == 9 || n == 10 || n == 12 || n == 13 {
            assert(escape_char(c).len() == 2);
            assert(s[0] == '\\');
            assert(s[1] == escape_char(c)[1]);
            assert(is_named_escape(s[1]));
            if c != '"' && c != '\\' {
                lemma_char_code_roundtrip(c);
            }
            assert(named_escape_value(s[1]) == c);
            assert(s.skip(2) =~= s1);
        } else if n < 32 {
            assert(escape_char(c).len() == 6);
            assert(s[0] == '\\');
            assert(s[1] == 'u');
            assert(s[2] == '0');
            assert(s[3] == '0');
            assert(s[4] == hex_digit(n as int / 16));
            assert(s[5] == hex_digit(n as int % 16));
            lemma_hex_digit(n as int / 16);
            lemma_hex_digit(n as int % 16);
            lemma_fundamental_div_mod(n as int, 16);
            assert(hex_val(s[4]) * 16 + hex_val(s[5]) == n);
            assert(!code_has_named_escape(n as int));
            lemma_char_code_roundtrip(c);
            assert(((n as u8) as char) == c);
            assert(s.skip(6) =~= s1);
        } else {
            assert(escape_char(c) =~= seq![c]);
            assert(s[0] == c);
            assert(s.drop_first() =~= s1);
        }
    }
}

/// The base64 alphabet character of a six-bit value.
pub open spec fn b64_char(v: int) -> char {
    if v < 26 {
        ((65 + v) as u8) as char
    } else if v < 52 {
        ((71 + v) as u8) as char
    } else if v < 62 {
        ((v - 4) as u8) as char
    } else if v == 62 {
        '+'
    } else {
        '/'
    }
}

/// A character of the base64 alphabet.
pub open spec fn is_b64_char(c: char) -> bool {
    let n = c as u32;
    (65 <= n && n <= 90) || (97 <= n && n <= 122) || (48 <= n && n <= 57) || c == '+' || c == '/'
}

/// The six-bit value of a base64 alphabet character.
pub open spec fn b64_val(c: char) -> int {
    let n = c as u32;
    if 65 <= n && n <= 90 {
        n - 65
    } else if 97 <= n && n <= 122 {
        n - 71
    } else if 48 <= n && n <= 57 {
        n + 4
    } else if c == '+' {
        62
    } else {
        63
    }
}

pub proof fn lemma_b64_char(v: int)
    requires
        0 <= v < 64,
    ensures
        is_b64_char(b64_char(v)),
        b64_val(b64_char(v)) == v,
        b64_char(v) != '=',
        char_is_plain(b64_char(v)),
{
    if v < 26 {
        lemma_code_char_roundtrip((65 + v) as u8);
    } else if v < 52 {
        lemma_code_char_roundtrip((71 + v) as u8);
    } else if v < 62 {
        lemma_code_char_roundtrip((v - 4) as u8);
    }
}

/// The four alphabet characters of a full three-byte group.
pub open spec fn b64_group(b0: int, b1: int, b2: int) -> Seq<char> {
    seq![
        b64_char(b0 / 4),
        b64_char((b0 % 4) * 16 + b1 / 16),
        b64_char((b1 % 16) * 4 + b2 / 64),
        b64_char(b2 % 64),
    ]
}

/// Standard base64 with padding: full groups of three bytes, and a padded
/// final group of one or two bytes.
pub open spec fn base64_encode(bytes: Seq<u8>) -> Seq<char>
    decreases bytes.len(),
{
    if bytes.len() == 0 {
        Seq::empty()
    } else if bytes.len() == 1 {
        let b0 = bytes[0] as int;
        seq![b64_char(b0 / 4), b64_char((b0 % 4) * 16), '=', '=']
    } else if bytes.len() == 2 {
        let b0 = bytes[0] as int;
        let b1 = bytes[1] as int;
        seq![b64_char(b0 / 4), b64_char((b0 % 4) * 16 + b1 / 16), b64_char((b1 % 16) * 4), '=']
    } else {
        b64_group(bytes[0] as int, bytes[1] as int, bytes[2] as int) + base64_encode(bytes.skip(3))
    }
}

/// Decode canonical base64 with padding: the inverse of [`base64_encode`],
/// rejecting everything that encoding does not emit.
pub open spec fn base64_decode(s: Seq<char>) -> Option<Seq<u8>>
    decreases s.len(),
{
    if s.len() == 0 {
        Some(Seq::empty())
    } else if s.len() < 4 {
        None
    } else if !is_b64_char(s[0]) || !is_b64_char(s[1]) {
        None
    } else {
        let v0 = b64_val(s[0]);
        let v1 = b64_val(s[1]);
        if s.len() == 4 && s[2] == '=' && s[3] == '=' {
            if v1 % 16 == 0 {
                Some(seq![(v0 * 4 + v1 / 16) as u8])
            } else {
                None
            }
        } else if s.len() == 4 && s[3] == '=' {
            if is_b64_char(s[2]) && b64_val(s[2]) % 4 == 0 {
                Some(seq![(v0 * 4 + v1 / 16) as u8, ((v1 % 16) * 16 + b64_val(s[2]) / 4) as u8])
            } else {
                None
            }
        } else if is_b64_char(s[2]) && is_b64_char(s[3]) {
            let v2 = b64_val(s[2]);
            let v3 = b64_val(s[3]);
            match base64_decode(s.skip(4)) {
                Some(d) => Some(
                    seq![
                        (v0 * 4 + v1 / 16) as u8,
                        ((v1 % 16) * 16 + v2 / 4) as u8,
                        ((v2 % 4) * 64 + v3) as u8,
                    ] + d,
                ),
                None => None,
            }
        } else {
            None
        }
    }
}

/// The six-bit values of a three-byte group recompose to the bytes.
proof fn lemma_b64_recompose(b0: int, b1: int, b2: int)
    requires
        0 <= b0 < 256,
        0 <= b1 < 256,
        0 <= b2 < 256,
    ensures
        0 <= b0 / 4 < 64,
        0 <= (b0 % 4) * 16 + b1 / 16 < 64,
        0 <= (b1 % 16) * 4 + b2 / 64 < 64,
        0 <= b2 % 64 < 64,
        (b0 / 4) * 4 + ((b0 % 4) * 16 + b1 / 16) / 16 == b0,
        (((b0 % 4) * 16 + b1 / 16) % 16) * 16 + ((b1 % 16) * 4 + b2 / 64) / 4 == b1,
        (((b1 % 16) * 4 + b2 / 64) % 4) * 64 + b2 % 64 == b2,
        ((b0 % 4) * 16) % 16 == 0,
        ((b0 % 4) * 16) / 16 == b0 % 4,
        ((b1 % 16) * 4) % 4 == 0,
        ((b1 % 16) * 4) / 4 == b1 % 16,
{
    assert(0 <= b0 % 4 < 4 && 0 <= b1 % 16 < 16 && 0 <= b2 % 64 < 64);
    assert(0 <= b0 / 4 < 64 && 0 <= b1 / 16 < 16 && 0 <= b2 / 64 < 4);
    vstd::arithmetic::div_mod::lemma_div_multiples_vanish_fancy(b0 % 4, b1 / 16, 16);
    vstd::arithmetic::div_mod::lemma_mod_multiples_vanish(b0 % 4, b1 / 16, 16);
    vstd::arithmetic::div_mod::lemma_small_mod((b1 / 16) as nat, 16nat);
    vstd::arithmetic::div_mod::lemma_div_multiples_vanish_fancy(b1 % 16, b2 / 64, 4);
    vstd::arithmetic::div_mod::lemma_mod_multiples_vanish(b1 % 16, b2 / 64, 4);
    vstd::arithmetic::div_mod::lemma_small_mod((b2 / 64) as nat, 4nat);
    vstd::arithmetic::div_mod::lemma_div_multiples_vanish_fancy(b0 % 4, 0, 16);
    vstd::arithmetic::div_mod::lemma_mod_multiples_vanish(b0 % 4, 0, 16);
    vstd::arithmetic::div_mod::lemma_small_mod(0nat, 16nat);
    vstd::arithmetic::div_mod::lemma_div_multiples_vanish_fancy(b1 % 16, 0, 4);
    vstd::arithmetic::div_mod::lemma_mod_multiples_vanish(b1 % 16, 0, 4);
    vstd::arithmetic::div_mod::lemma_small_mod(0nat, 4nat);
    lemma_fundamental_div_mod(b0, 4);
    lemma_fundamental_div_mod(b1, 16);
    lemma_fundamental_div_mod(b2, 64);
    assert(((b1 % 16) * 4 + b2 / 64) % 4 == b2 / 64);
    assert((((b1 % 16) * 4 + b2 / 64) % 4) * 64 + b2 % 64 == (b2 / 64) * 64 + b2 % 64);
    assert((b2 / 64) * 64 + b2 % 64 == b2) by {
        lemma_fundamental_div_mod(b2, 64);
    }
}

/// Encoding then decoding any byte sequence yields the bytes back.
pub proof fn lemma_base64_round_trip(bytes: Seq<u8>)
    ensures
        base64_decode(base64_encode(bytes)) == Some(bytes),
    decreases bytes.len(),
{
    if bytes.len() == 0 {
        assert(base64_encode(bytes) =~= Seq::<char>::empty());
        assert(Seq::<u8>::empty() =~= bytes);
    } else if bytes.len() == 1 {
        let b0 = bytes[0] as int;
        lemma_b64_recompose(b0, 0, 0);
        lemma_b64_char(b0 / 4);
        lemma_b64_char((b0 % 4) * 16);
        let s = base64_encode(bytes);
        assert(s.len() == 4);
        assert(s[2] == '=' && s[3] == '=');
        assert(base64_decode(s) == Some(seq![(b64_val(s[0]) * 4 + b64_val(s[1]) / 16) as u8]));
        assert(b64_val(s[0]) * 4 + b64_val(s[1]) / 16 == b0);
        assert(seq![(b0 as u8)] =~= bytes);
    } else if bytes.len() == 2 {
        let b0 = bytes[0] as int;
        let b1 = bytes[1] as int;
        lemma_b64_recompose(b0, b1, 0);
        lemma_b64_char(b0 / 4);
        lemma_b64_char((b0 % 4) * 16 + b1 / 16);
        lemma_b64_char((b1 % 16) * 4);
        let s = base64_encode(bytes);
        assert(s.len() == 4);
        assert(s[3] == '=' && s[2] != '=');
        assert(b64_val(s[0]) * 4 + b64_val(s[1]) / 16 == b0);
        assert((b64_val(s[1]) % 16) * 16 + b64_val(s[2]) / 4 == b1);
        assert(seq![(b0 as u8), (b1 as u8)] =~= bytes);
    } else {
        let b0 = bytes[0] as int;
        let b1 = bytes[1] as int;
        let b2 = bytes[2] as int;
        lemma_b64_recompose(b0, b1, b2);
        lemma_b64_char(b0 / 4);
        lemma_b64_char((b0 % 4) * 16 + b1 / 16);
        lemma_b64_char((b1 % 16) * 4 + b2 / 64);
        lemma_b64_char(b2 % 64);
        lemma_base64_round_trip(bytes.skip(3));
        let g = b64_group(b0, b1, b2);
        let s = base64_encode(bytes);
        assert(s == g + base64_encode(bytes.skip(3)));
        assert(s.len() >= 4);
        assert(s[0] == g[0] && s[1] == g[1] && s[2] == g[2] && s[3] == g[3]);
        assert(s.skip(4) =~= base64_encode(bytes.skip(3)));
        if bytes.len() == 3 {
            assert(base64_encode(bytes.skip(3)) =~= Seq::<char>::empty());
            assert(s.len() == 4);
        }
        assert(s[3] != '=');
        assert(b64_val(s[0]) * 4 + b64_val(s[1]) / 16 == b0);
        assert((b64_val(s[1]) % 16) * 16 + b64_val(s[2]) / 4 == b1);
        assert((b64_val(s[2]) % 4) * 64 + b64_val(s[3]) == b2);
        assert(seq![(b0 as u8), (b1 as u8), (b2 as u8)] + bytes.skip(3) =~= bytes);
    }
}

/// Every character of an encoding is plain: it embeds in a JSON string
/// unchanged.
pub proof fn lemma_base64_encode_plain(bytes: Seq<u8>)
    ensures
        forall|i: int|
            0 <= i < base64_encode(bytes).len() ==> char_is_plain(base64_encode(bytes)[i]),
    decreases bytes.len(),
{
    if bytes.len() == 0 {
    } else if bytes.len() == 1 {
        let b0 = bytes[0] as int;
        lemma_b64_recompose(b0, 0, 0);
        lemma_b64_char(b0 / 4);
        lemma_b64_char((b0 % 4) * 16);
    } else if bytes.len() == 2 {
        let b0 = bytes[0] as int;
        let b1 = bytes[1] as int;
        lemma_b64_recompose(b0, b1, 0);
        lemma_b64_char(b0 / 4);
        lemma_b64_char((b0 % 4) * 16 + b1 / 16);
        lemma_b64_char((b1 % 16) * 4);
    } else {
        let b0 = bytes[0] as int;
        let b1 = bytes[1] as int;
        let b2 = bytes[2] as int;
        lemma_b64_recompose(b0, b1, b2);
        lemma_b64_char(b0 / 4);
        lemma_b64_char((b0 % 4) * 16 + b1 / 16);
        lemma_b64_char((b1 % 16) * 4 + b2 / 64);
        lemma_b64_char(b2 % 64);
        lemma_base64_encode_plain(bytes.skip(3));
        let g = b64_group(b0, b1, b2);
        let s = base64_encode(bytes);
        assert forall|i: int| 0 <= i < s.len() implies char_is_plain(s[i]) by {
            if i < 4 {
                assert(s[i] == g[i]);
            } else {
                assert(s[i] == base64_encode(bytes.skip(3))[i - 4]);
            }
        }
    }
}

/// A base64 alphabet character survives the round trip through its value.
proof fn lemma_b64_val_inverse(c: char)
    requires
        is_b64_char(c),
    ensures
        b64_char(b64_val(c)) == c,
{
    lemma_char_code_roundtrip(c);
}

/// The decoder only accepts canonical encodings: whatever it decoded is the
/// encoding of the resulting bytes.
pub proof fn lemma_base64_decode_inverse(s: Seq<char>)
    ensures
        base64_decode(s) matches Some(b) ==> base64_encode(b) == s,
    decreases s.len(),
{
    if s.len() == 0 {
        assert(base64_encode(Seq::<u8>::empty()) =~= s);
    } else if s.len() < 4 {
    } else if !is_b64_char(s[0]) || !is_b64_char(s[1]) {
    } else {
        let v0 = b64_val(s[0]);
        let v1 = b64_val(s[1]);
        lemma_b64_val_inverse(s[0]);
        lemma_b64_val_inverse(s[1]);
        if s.len() == 4 && s[2] == '=' && s[3] == '=' {
            if v1 % 16 == 0 {
                let b0 = v0 * 4 + v1 / 16;
                assert(0 <= v1 / 16 < 4);
                vstd::arithmetic::div_mod::lemma_div_multiples_vanish_fancy(v0, v1 / 16, 4);
                vstd::arithmetic::div_mod::lemma_mod_multiples_vanish(v0, v1 / 16, 4);
                vstd::arithmetic::div_mod::lemma_small_mod((v1 / 16) as nat, 4nat);
                assert(b0 / 4 == v0 && b0 % 4 == v1 / 16);
                lemma_fundamental_div_mod(v1, 16);
                assert((b0 % 4) * 16 == v1);
                assert(base64_encode(seq![b0 as u8]) =~= s);
            }
        } else if s.len() == 4 && s[3] == '=' {
            if is_b64_char(s[2]) && b64_val(s[2]) % 4 == 0 {
                let v2 = b64_val(s[2]);
                lemma_b64_val_inverse(s[2]);
                let b0 = v0 * 4 + v1 / 16;
                let b1 = (v1 % 16) * 16 + v2 / 4;
                lemma_b64_recompose(b0, b1, 0);
                assert(b0 / 4 == v0 && b0 % 4 == v1 / 16) by {
                    vstd::arithmetic::div_mod::lemma_div_multiples_vanish_fancy(v0, v1 / 16, 4);
                    vstd::arithmetic::div_mod::lemma_mod_multiples_vanish(v0, v1 / 16, 4);
                    vstd::arithmetic::div_mod::lemma_small_mod((v1 / 16) as nat, 4nat);
                }
                assert(b1 / 16 == v1 % 16 && b1 % 16 == v2 / 4) by {
                    vstd::arithmetic::div_mod::lemma_div_multiples_vanish_fancy(
                        v1 % 16,
                        v2 / 4,
                        16,
                    );
                    vstd::arithmetic::div_mod::lemma_mod_multiples_vanish(v1 % 16, v2 / 4, 16);
                    vstd::arithmetic::div_mod::lemma_small_mod((v2 / 4) as nat, 16nat);
                }
                assert((b0 % 4) * 16 + b1 / 16 == v1) by {
                    lemma_fundamental_div_mod(v1, 16);
                }
                assert((b1 % 16) * 4 == v2) by {
                    lemma_fundamental_div_mod(v2, 4);
                }
                assert(base64_encode(seq![b0 as u8, b1 as u8]) =~= s);
            }
        } else if is_b64_char(s[2]) && is_b64_char(s[3]) {
            let v2 = b64_val(s[2]);
            let v3 = b64_val(s[3]);
            lemma_b64_val_inverse(s[2]);
            lemma_b64_val_inverse(s[3]);
            lemma_base64_decode_inverse(s.skip(4));
            match base64_decode(s.skip(4)) {
                None => {},
                Some(d) => {
                    let b0 = v0 * 4 + v1 / 16;
                    let b1 = (v1 % 16) * 16 + v2 / 4;
                    let b2 = (v2 % 4) * 64 + v3;
                    lemma_b64_recompose(b0, b1, b2);
                    assert(b0 / 4 == v0 && b0 % 4 == v1 / 16) by {
                        vstd::arithmetic::div_mod::lemma_div_multiples_vanish_fancy(
                            v0,
                            v1 / 16,
                            4,
                        );
                        vstd::arithmetic::div_mod::lemma_mod_multiples_vanish(v0, v1 / 16, 4);
                        vstd::arithmetic::div_mod::lemma_small_mod((v1 / 16) as nat, 4nat);
                    }
                    assert(b1 / 16 == v1 % 16 && b1 % 16 == v2 / 4) by {
                        vstd::arithmetic::div_mod::lemma_div_multiples_vanish_fancy(
                            v1 % 16,
                            v2 / 4,
                            16,
                        );
                        vstd::arithmetic::div_mod::lemma_mod_multiples_vanish(
                            v1 % 16,
                            v2 / 4,
                            16,
                        );
                        vstd::arithmetic::div_mod::lemma_small_mod((v2 / 4) as nat, 16nat);
                    }
                    assert(b2 / 64 == v2 % 4 && b2 % 64 == v3) by {
                        vstd::arithmetic::div_mod::lemma_div_multiples_vanish_fancy(
                            v2 % 4,
                            v3,
                            64,
                        );
                        vstd::arithmetic::div_mod::lemma_mod_multiples_vanish(v2 % 4, v3, 64);
                        vstd::arithmetic::div_mod::lemma_small_mod(v3 as nat, 64nat);
                    }
                    assert((b0 % 4) * 16 + b1 / 16 == v1) by {
                        lemma_fundamental_div_mod(v1, 16);
                    }
                    assert((b1 % 16) * 4 + b2 / 64 == v2) by {
                        lemma_fundamental_div_mod(v2, 4);
                    }
                    let bytes = seq![b0 as u8, b1 as u8, b2 as u8] + d;
                    assert(bytes.skip(3) =~= d);
                    assert(bytes[0] == b0 as u8 && bytes[1] == b1 as u8 && bytes[2] == b2 as u8);
                    assert(base64_encode(bytes) =~= s);
                },
            }
        }
    }
}

/// The wire name of a role.
pub open spec fn role_name(r: AILanguageModelPromptRole) -> Seq<char> {
    match r {
        AILanguageModelPromptRole::System => "system"@,
        AILanguageModelPromptRole::User => "user"@,
        AILanguageModelPromptRole::Assistant => "assistant"@,
    }
}

/// The wire tag of a prompt's content kind.
pub open spec fn prompt_kind_name(p: PromptView) -> Seq<char> {
    match p {
        PromptView::Text { .. } => "text"@,
        PromptView::Image { .. } => "image"@,
        PromptView::Audio { .. } => "audio"@,
    }
}

/// The JSON string body of a prompt's content: escaped text, or base64 for
/// binary content.
pub open spec fn prompt_payload(p: PromptView) -> Seq<char> {
    match p {
        PromptView::Text { content, .. } => escape_string(content),
        PromptView::Image { content, .. } => base64_encode(content),
        PromptView::Audio { content, .. } => base64_encode(content),
    }
}

/// The JSON form of one prompt:
/// `{"type":KIND,"role":ROLE,"content":BODY}`, each part a JSON string.
pub open spec fn serialize_prompt_spec(p: PromptView) -> Seq<char> {
    "{\"type\":\""@ + prompt_kind_name(p) + "\",\"role\":\""@ + role_name(p.role())
        + "\",\"content\":\""@ + prompt_payload(p) + "\"}"@
}

/// Strip an expected literal prefix.
pub open spec fn expect(s: Seq<char>, lit: Seq<char>) -> Option<Seq<char>> {
    if lit.len() <= s.len() && s.take(lit.len() as int) == lit {
        Some(s.skip(lit.len() as int))
    } else {
        None
    }
}

proof fn lemma_expect_concat(lit: Seq<char>, rest: Seq<char>)
    ensures
        expect(lit + rest, lit) == Some(rest),
{
    let s = lit + rest;
    assert(s.take(lit.len() as int) =~= lit);
    assert(s.skip(lit.len() as int) =~= rest);
}

/// The role a wire name denotes.
pub open spec fn parse_role(s: Seq<char>) -> Option<AILanguageModelPromptRole> {
    if s == "system"@ {
        Some(AILanguageModelPromptRole::System)
    } else if s == "user"@ {
        Some(AILanguageModelPromptRole::User)
    } else if s == "assistant"@ {
        Some(AILanguageModelPromptRole::Assistant)
    } else {
        None
    }
}

/// Parse the canonical JSON form of a prompt: the inverse of
/// [`serialize_prompt_spec`].
pub open spec fn parse_prompt_spec(s: Seq<char>) -> Option<PromptView> {
    match expect(s, "{\"type\":\""@) {
        None => None,
        Some(r0) => match parse_jstring(r0) {
            None => None,
            Some((kind, r1)) => match expect(r1, ",\"role\":\""@) {
                None => None,
                Some(r2) => match parse_jstring(r2) {
                    None => None,
                    Some((role_s, r3)) => match parse_role(role_s) {
                        None => None,
                        Some(role) => match expect(r3, ",\"content\":\""@) {
                            None => None,
                            Some(r4) => match parse_jstring(r4) {
                                None => None,
                                Some((body, r5)) => {
                                    if r5 == "}"@ {
                                        if kind == "text"@ {
                                            Some(PromptView::Text { role, content: body })
                                        } else if kind == "image"@ {
                                            match base64_decode(body) {
                                                Some(b) => Some(
                                                    PromptView::Image { role, content: b },
                                                ),
                                                None => None,
                                            }
                                        } else if kind == "audio"@ {
                                            match base64_decode(body) {
                                                Some(b) => Some(
                                                    PromptView::Audio { role, content: b },
                                                ),
                                                None => None,
                                            }
                                        } else {
                                            None
                                        }
                                    } else {
                                        None
                                    }
                                },
                            },
                        },
                    },
                },
            },
        },
    }
}

/// The wire names of kinds and roles pass through escaping unchanged.
proof fn lemma_names_escape_id()
    ensures
        escape_string("text"@) == "text"@,
        escape_string("image"@) == "image"@,
        escape_string("audio"@) == "audio"@,
        escape_string("system"@) == "system"@,
        escape_string("user"@) == "user"@,
        escape_string("assistant"@) == "assistant"@,
{
    reveal_strlit("text");
    reveal_strlit("image");
    reveal_strlit("audio");
    reveal_strlit("system");
    reveal_strlit("user");
    reveal_strlit("assistant");
    lemma_escape_plain("text"@);
    lemma_escape_plain("image"@);
    lemma_escape_plain("audio"@);
    lemma_escape_plain("system"@);
    lemma_escape_plain("user"@);
    lemma_escape_plain("assistant"@);
}

/// Serializing then parsing any prompt yields the prompt back.
#[verifier::rlimit(100)]
pub proof fn lemma_prompt_round_trip(p: PromptView)
    ensures
        parse_prompt_spec(serialize_prompt_spec(p)) == Some(p),
{
    reveal_strlit("text");
    reveal_strlit("image");
    reveal_strlit("audio");
    reveal_strlit("system");
    reveal_strlit("user");
    reveal_strlit("assistant");
    reveal_strlit("{\"type\":\"");
    reveal_strlit("\",\"role\":\"");
    reveal_strlit(",\"role\":\"");
    reveal_strlit("\",\"content\":\"");
    reveal_strlit(",\"content\":\"");
    reveal_strlit("\"}");
    reveal_strlit("}");
    lemma_names_escape_id();
    let kind = prompt_kind_name(p);
    let role = role_name(p.role());
    let payload = prompt_payload(p);
    let s = serialize_prompt_spec(p);
    let l1 = "{\"type\":\""@;
    let m2 = ",\"role\":\""@;
    let m3 = ",\"content\":\""@;
    let chunk5 = payload + seq!['"'] + seq!['}'];
    let chunk4 = m3 + chunk5;
    let chunk3 = role + seq!['"'] + chunk4;
    let chunk2 = m2 + chunk3;
    let chunk1 = kind + seq!['"'] + chunk2;
    assert(s =~= l1 + chunk1);
    lemma_expect_concat(l1, chunk1);
    assert(expect(s, l1) == Some(chunk1));

    assert(chunk1 =~= escape_string(kind) + seq!['"'] + chunk2);
    lemma_parse_escape_string(kind, chunk2);
    assert(parse_jstring(chunk1) == Some((kind, chunk2)));

    lemma_expect_concat(m2, chunk3);
    assert(expect(chunk2, m2) == Some(chunk3));

    assert(chunk3 =~= escape_string(role) + seq!['"'] + chunk4);
    lemma_parse_escape_string(role, chunk4);
    assert(parse_jstring(chunk3) == Some((role, chunk4)));

    assert(parse_role(role) == Some(p.role()));

    lemma_expect_concat(m3, chunk5);
    assert(expect(chunk4, m3) == Some(chunk5));

    assert(seq!['}'] =~= "}"@);
    match p {
        PromptView::Text { role: r, content } => {
            assert(payload == escape_string(content));
            assert(chunk5 =~= escape_string(content) + seq!['"'] + seq!['}']);
            lemma_parse_escape_string(content, seq!['}']);
            assert(parse_jstring(chunk5) == Some((content, seq!['}'])));
            assert(kind == "text"@);
            assert(p == PromptView::Text { role: p.role(), content });
        },
        PromptView::Image { role: r, content } => {
            lemma_base64_encode_plain(content);
            lemma_escape_plain(payload);
            assert(chunk5 =~= escape_string(payload) + seq!['"'] + seq!['}']);
            lemma_parse_escape_string(payload, seq!['}']);
            assert(parse_jstring(chunk5) == Some((payload, seq!['}'])));
            assert(kind != "text"@ && kind == "image"@);
            lemma_base64_round_trip(content);
            assert(base64_decode(payload) == Some(content));
            assert(p == PromptView::Image { role: p.role(), content });
        },
        PromptView::Audio { role: r, content } => {
            lemma_base64_encode_plain(content);
            lemma_escape_plain(payload);
            assert(chunk5 =~= escape_string(payload) + seq!['"'] + seq!['}']);
            lemma_parse_escape_string(payload, seq!['}']);
            assert(parse_jstring(chunk5) == Some((payload, seq!['}'])));
            assert(kind != "text"@ && kind != "image"@ && kind == "audio"@);
            lemma_base64_round_trip(content);
            assert(base64_decode(payload) == Some(content));
            assert(p == PromptView::Audio { role: p.role(), content });
        },
    }
}

/// The prompt reader is canonical: whatever parses is the serialization of
/// the parse result, so distinct prompts never share a wire form.
#[verifier::rlimit(100)]
pub proof fn lemma_prompt_parse_canonical(s: Seq<char>)
    ensures
        parse_prompt_spec(s) matches Some(p) ==> serialize_prompt_spec(p) == s,
{
    reveal_strlit("text");
    reveal_strlit("image");
    reveal_strlit("audio");
    reveal_strlit("{\"type\":\"");
    reveal_strlit("\",\"role\":\"");
    reveal_strlit(",\"role\":\"");
    reveal_strlit("\",\"content\":\"");
    reveal_strlit(",\"content\":\"");
    reveal_strlit("\"}");
    reveal_strlit("}");
    lemma_names_escape_id();
    let l1 = "{\"type\":\""@;
    let m2 = ",\"role\":\""@;
    let m3 = ",\"content\":\""@;
    if parse_prompt_spec(s) is Some {
        let r0 = expect(s, l1)->0;
        lemma_expect_inverse(s, l1);
        let (kind, r1) = parse_jstring(r0)->0;
        lemma_parse_jstring_inverse(r0);
        let r2 = expect(r1, m2)->0;
        lemma_expect_inverse(r1, m2);
        let (role_s, r3) = parse_jstring(r2)->0;
        lemma_parse_jstring_inverse(r2);
        let role = parse_role(role_s)->0;
        let r4 = expect(r3, m3)->0;
        lemma_expect_inverse(r3, m3);
        let (body, r5) = parse_jstring(r4)->0;
        lemma_parse_jstring_inverse(r4);
        assert(r5 == "}"@);
        assert(role_s == role_name(role));
        assert(escape_string(role_s) == role_s);
        if kind == "text"@ {
            let p = PromptView::Text { role, content: body };
            assert(parse_prompt_spec(s) == Some(p));
            assert(serialize_prompt_spec(p) =~= s);
        } else if kind == "image"@ {
            let b = base64_decode(body)->0;
            lemma_base64_decode_inverse(body);
            assert(base64_encode(b) == body);
            lemma_base64_encode_plain(b);
            lemma_escape_plain(body);
            let p = PromptView::Image { role, content: b };
            assert(parse_prompt_spec(s) == Some(p));
            assert(serialize_prompt_spec(p) =~= s);
        } else {
            let b = base64_decode(body)->0;
            lemma_base64_decode_inverse(body);
            assert(base64_encode(b) == body);
            lemma_base64_encode_plain(b);
            lemma_escape_plain(body);
            let p = PromptView::Audio { role, content: b };
            assert(parse_prompt_spec(s) == Some(p));
            assert(serialize_prompt_spec(p) =~= s);
        }
    }
}

/// Relies on `String::push`: appends one character to the string.
#[verifier::external_body]
fn push_char(s: &mut String, c: char)
    ensures
        final(s)@ == old(s)@.push(c),
{
    s.push(c);
}

fn hex_digit_exec(v: u8) -> (c: char)
    requires
        v < 16,
    ensures
        c == hex_digit(v as int),
{
    if v < 10 {
        (48 + v) as char
    } else {
        (87 + v) as char
    }
}

/// Append the escaped form of `content` to `out`.
fn append_escaped(out: &mut String, content: &str)
    ensures
        final(out)@ == old(out)@ + escape_string(content@),
{
    let n = content.unicode_len();
    let mut i: usize = 0;
    proof {
        assert(content@.take(0) =~= Seq::<char>::empty());
        assert(old(out)@ + escape_string(content@.take(0)) =~= old(out)@);
    }
    while i < n
        invariant
            n == content@.len(),
            i <= n,
            out@ == old(out)@ + escape_string(content@.take(i as int)),
        decreases n - i,
    {
        let ghost prev = out@;
        let c = content.get_char(i);
        proof {
            assert(content@.take(i as int + 1) =~= content@.take(i as int).push(c));
            lemma_escape_string_push(content@.take(i as int), c);
        }
        let code = c as u32;
        if c == '"' {
            out.append("\\\"");
            proof {
                reveal_strlit("\\\"");
                assert(out@ =~= prev + escape_char(c));
            }
        } else if c == '\\' {
            out.append("\\\\");
            proof {
                reveal_strlit("\\\\");
                assert(out@ =~= prev + escape_char(c));
            }
        } else if code == 8 {
            out.append("\\b");
            proof {
                reveal_strlit("\\b");
                assert(out@ =~= prev + escape_char(c));
            }
        } else if code == 9 {
            out.append("\\t");
            proof {
                reveal_strlit("\\t");
                assert(out@ =~= prev + escape_char(c));
            }
        } else if code == 10 {
            out.append("\\n");
            proof {
                reveal_strlit("\\n");
                assert(out@ =~= prev + escape_char(c));
            }
        } else if code == 12 {
            out.append("\\f");
            proof {
                reveal_strlit("\\f");
                assert(out@ =~= prev + escape_char(c));
            }
        } else if code == 13 {
            out.append("\\r");
            proof {
                reveal_strlit("\\r");
                assert(out@ =~= prev + escape_char(c));
            }
        } else if code < 32 {
            out.append("\\u00");
            let hi = hex_digit_exec((code / 16) as u8);
            let lo = hex_digit_exec((code % 16) as u8);
            push_char(out, hi);
            push_char(out, lo);
            proof {
                reveal_strlit("\\u00");
                assert(out@ =~= prev + escape_char(c));
            }
        } else {
            push_char(out, c);
            proof {
                assert(out@ =~= prev + escape_char(c));
            }
        }
        proof {
            assert(out@ =~= old(out)@ + escape_string(content@.take(i as int + 1)));
        }
        i = i + 1;
    }
    proof {
        assert(content@.take(n as int) =~= content@);
    }
}

fn b64_char_exec(v: u8) -> (c: char)
    requires
        v < 64,
    ensures
        c == b64_char(v as int),
{
    if v < 26 {
        (65 + v) as char
    } else if v < 52 {
        (71 + v) as char
    } else if v < 62 {
        (v - 4) as char
    } else if v == 62 {
        '+'
    } else {
        '/'
    }
}

/// Append the base64 form of `bytes` to `out`.
fn append_base64(out: &mut String, bytes: &Vec<u8>)
    ensures
        final(out)@ == old(out)@ + base64_encode(bytes@),
{
    let n = bytes.len();
    let mut i: usize = 0;
    proof {
        assert(bytes@.skip(0) =~= bytes@);
    }
    while n - i >= 3
        invariant
            n == bytes@.len(),
            i <= n,
            out@ + base64_encode(bytes@.skip(i as int)) == old(out)@ + base64_encode(bytes@),
        decreases n - i,
    {
        let ghost prev = out@;
        let ghost tail = bytes@.skip(i as int);
        let b0 = bytes[i];
        let b1 = bytes[i + 1];
        let b2 = bytes[i + 2];
        proof {
            assert(tail[0] == bytes@[i as int]);
            assert(tail[1] == bytes@[i as int + 1]);
            assert(tail[2] == bytes@[i as int + 2]);
            assert(tail.skip(3) =~= bytes@.skip(i as int + 3));
            lemma_b64_recompose(b0 as int, b1 as int, b2 as int);
        }
        push_char(out, b64_char_exec(b0 / 4));
        push_char(out, b64_char_exec((b0 % 4) * 16 + b1 / 16));
        push_char(out, b64_char_exec((b1 % 16) * 4 + b2 / 64));
        push_char(out, b64_char_exec(b2 % 64));
        proof {
            assert(out@ =~= prev + b64_group(b0 as int, b1 as int, b2 as int));
            assert(base64_encode(tail) == b64_group(b0 as int, b1 as int, b2 as int)
                + base64_encode(bytes@.skip(i as int + 3)));
            assert(out@ + base64_encode(bytes@.skip(i as int + 3)) =~= prev + base64_encode(tail));
        }
        i = i + 3;
    }
    let ghost tail = bytes@.skip(i as int);
    let ghost prev = out@;
    let rem = n - i;
    if rem == 1 {
        let b0 = bytes[i];
        proof {
            assert(tail[0] == bytes@[i as int]);
            lemma_b64_recompose(b0 as int, 0, 0);
        }
        push_char(out, b64_char_exec(b0 / 4));
        push_char(out, b64_char_exec((b0 % 4) * 16));
        push_char(out, '=');
        push_char(out, '=');
        proof {
            assert(out@ =~= prev + base64_encode(tail));
        }
    } else if rem == 2 {
        let b0 = bytes[i];
        let b1 = bytes[i + 1];
        proof {
            assert(tail[0] == bytes@[i as int]);
            assert(tail[1] == bytes@[i as int + 1]);
            lemma_b64_recompose(b0 as int, b1 as int, 0);
        }
        push_char(out, b64_char_exec(b0 / 4));
        push_char(out, b64_char_exec((b0 % 4) * 16 + b1 / 16));
        push_char(out, b64_char_exec((b1 % 16) * 4));
        push_char(out, '=');
        proof {
            assert(out@ =~= prev + base64_encode(tail));
        }
    } else {
        proof {
            assert(tail.len() == 0);
            assert(out@ =~= prev + base64_encode(tail));
        }
    }
}

/// Write one prompt in its JSON form.
pub fn serialize_prompt(p: &crate::types::AILanguageModelPrompt) -> (r: String)
    ensures
        r@ == serialize_prompt_spec(p.deep_view()),
{
    let mut out = String::new();
    out.append("{\"type\":\"");
    match p {
        crate::types::AILanguageModelPrompt::Text { .. } => out.append("text"),
        crate::types::AILanguageModelPrompt::Image { .. } => out.append("image"),
        crate::types::AILanguageModelPrompt::Audio { .. } => out.append("audio"),
    };
    out.append("\",\"role\":\"");
    let role = match p {
        crate::types::AILanguageModelPrompt::Text { role, .. } => role,
        crate::types::AILanguageModelPrompt::Image { role, .. } => role,
        crate::types::AILanguageModelPrompt::Audio { role, .. } => role,
    };
    match role {
        AILanguageModelPromptRole::System => out.append("system"),
        AILanguageModelPromptRole::User => out.append("user"),
        AILanguageModelPromptRole::Assistant => out.append("assistant"),
    };
    out.append("\",\"content\":\"");
    match p {
        crate::types::AILanguageModelPrompt::Text { content, .. } => append_escaped(
            &mut out,
            content.as_str(),
        ),
        crate::types::AILanguageModelPrompt::Image { content, .. } => append_base64(
            &mut out,
            content,
        ),
        crate::types::AILanguageModelPrompt::Audio { content, .. } => append_base64(
            &mut out,
            content,
        ),
    };
    out.append("\"}");
    proof {
        assert(out@ =~= serialize_prompt_spec(p.deep_view()));
    }
    out
}

/// The characters of a string, as a vector.
fn str_chars(s: &str) -> (r: Vec<char>)
    ensures
        r@ == s@,
{
    let n = s.unicode_len();
    let mut r: Vec<char> = Vec::new();
    let mut i: usize = 0;
    while i < n
        invariant
            n == s@.len(),
            i <= n,
            r@ == s@.take(i as int),
        decreases n - i,
    {
        let c = s.get_char(i);
        r.push(c);
        proof {
            assert(s@.take(i as int + 1) =~= s@.take(i as int).push(c));
        }
        i = i + 1;
    }
    proof {
        assert(s@.take(n as int) =~= s@);
    }
    r
}

/// Character-wise string equality.
fn str_equal(a: &str, b: &str) -> (r: bool)
    ensures
        r == (a@ == b@),
{
    let na = a.unicode_len();
    let nb = b.unicode_len();
    if na != nb {
        proof {
            assert(a@ != b@);
        }
        return false;
    }
    let mut i: usize = 0;
    while i < na
        invariant
            na == a@.len(),
            na == b@.len(),
            i <= na,
            forall|k: int| 0 <= k < i ==> a@[k] == b@[k],
        decreases na - i,
    {
        if a.get_char(i) != b.get_char(i) {
            proof {
                assert(a@[i as int] != b@[i as int]);
            }
            return false;
        }
        i = i + 1;
    }
    proof {
        assert(a@ =~= b@);
    }
    true
}

/// Check that the characters at `pos` start with the literal, and return the
/// position just past it.
fn expect_exec(v: &Vec<char>, pos: usize, lit: &str) -> (r: Option<usize>)
    requires
        pos <= v@.len(),
    ensures
        match r {
            Some(end) => pos <= end <= v@.len() && expect(v@.skip(pos as int), lit@) == Some(
                v@.skip(end as int),
            ),
            None => expect(v@.skip(pos as int), lit@) is None,
        },
{
    let n = lit.unicode_len();
    if v.len() - pos < n {
        return None;
    }
    let mut i: usize = 0;
    while i < n
        invariant
            n == lit@.len(),
            i <= n,
            pos + n <= v@.len(),
            pos + n <= usize::MAX,
            forall|k: int| 0 <= k < i ==> v@[pos + k] == lit@[k],
        decreases n - i,
    {
        if v[pos + i] != lit.get_char(i) {
            proof {
                let s = v@.skip(pos as int);
                if s.take(n as int) == lit@ {
                    assert(s.take(n as int)[i as int] == lit@[i as int]);
                    assert(s[i as int] == v@[pos + i]);
                    assert(false);
                }
            }
            return None;
        }
        i = i + 1;
    }
    proof {
        assert(v@.skip(pos as int).take(n as int) =~= lit@);
    }
    Some(pos + n)
}

/// Read a JSON string body starting at `start`, decoding its escapes: the
/// decoded text and the position just past the closing quote.
fn parse_jstring_exec(v: &Vec<char>, start: usize) -> (r: Option<(String, usize)>)
    requires
        start <= v@.len(),
    ensures
        match r {
            Some(d) => start <= d.1 <= v@.len() && parse_jstring(v@.skip(start as int)) == Some(
                (d.0@, v@.skip(d.1 as int)),
            ),
            None => parse_jstring(v@.skip(start as int)) is None,
        },
{
    let mut acc = String::new();
    let mut pos: usize = start;
    proof {
        match parse_jstring(v@.skip(start as int)) {
            Some((d, rest)) => {
                assert(Seq::<char>::empty() + d =~= d);
            },
            None => {},
        }
    }
    loop
        invariant
            start <= pos <= v@.len(),
            parse_jstring(v@.skip(start as int)) == (match parse_jstring(v@.skip(pos as int)) {
                Some((d, rest)) => Some((acc@ + d, rest)),
                None => None::<(Seq<char>, Seq<char>)>,
            }),
        decreases v@.len() - pos,
    {
        let ghost acc0 = acc@;
        let ghost pos0 = pos as int;
        if pos == v.len() {
            proof {
                assert(v@.skip(pos0).len() == 0);
            }
            return None;
        }
        let c = v[pos];
        proof {
            assert(v@.skip(pos0)[0] == v@[pos0]);
            assert(v@.skip(pos0).drop_first() =~= v@.skip(pos0 + 1));
        }
        if c == '"' {
            proof {
                assert(parse_jstring(v@.skip(pos0)) == Some(
                    (Seq::<char>::empty(), v@.skip(pos0 + 1)),
                ));
                assert(acc@ + Seq::<char>::empty() =~= acc@);
            }
            return Some((acc, pos + 1));
        } else if c == '\\' {
            if v.len() - pos < 2 {
                proof {
                    assert(v@.skip(pos0).len() < 2);
                }
                return None;
            }
            let e = v[pos + 1];
            proof {
                assert(v@.skip(pos0)[1] == v@[pos0 + 1]);
            }
            if e == '"' || e == '\\' || e == 'b' || e == 't' || e == 'n' || e == 'f' || e == 'r' {
                let u = if e == '"' {
                    '"'
                } else if e == '\\' {
                    '\\'
                } else if e == 'b' {
                    8u8 as char
                } else if e == 't' {
                    9u8 as char
                } else if e == 'n' {
                    10u8 as char
                } else if e == 'f' {
                    12u8 as char
                } else {
                    13u8 as char
                };
                proof {
                    assert(is_named_escape(e));
                    assert(named_escape_value(e) == u);
                    assert(v@.skip(pos0).skip(2) =~= v@.skip(pos0 + 2));
                    match parse_jstring(v@.skip(pos0 + 2)) {
                        Some((d, rest)) => {
                            assert(acc0.push(u) + d =~= acc0 + (seq![u] + d));
                        },
                        None => {},
                    }
                }
                push_char(&mut acc, u);
                pos = pos + 2;
            } else if e == 'u' {
                proof {
                    assert(!is_named_escape(e));
                }
                if v.len() - pos < 6 {
                    proof {
                        assert(v@.skip(pos0).len() < 6);
                    }
                    return None;
                }
                proof {
                    assert(v@.skip(pos0)[2] == v@[pos0 + 2]);
                    assert(v@.skip(pos0)[3] == v@[pos0 + 3]);
                    assert(v@.skip(pos0)[4] == v@[pos0 + 4]);
                    assert(v@.skip(pos0)[5] == v@[pos0 + 5]);
                }
                if v[pos + 2] != '0' || v[pos + 3] != '0' {
                    return None;
                }
                let h1 = v[pos + 4];
                let h2 = v[pos + 5];
                let n1 = h1 as u32;
                let n2 = h2 as u32;
                let hex1 = (48 <= n1 && n1 <= 57) || (97 <= n1 && n1 <= 102);
                let hex2 = (48 <= n2 && n2 <= 57) || (97 <= n2 && n2 <= 102);
                if !hex1 || !hex2 {
                    proof {
                        assert(!hex1 ==> !is_hex_lower(h1));
                        assert(!hex2 ==> !is_hex_lower(h2));
                    }
                    return None;
                }
                let d1 = if n1 <= 57 {
                    (n1 - 48) as u8
                } else {
                    (n1 - 87) as u8
                };
                let d2 = if n2 <= 57 {
                    (n2 - 48) as u8
                } else {
                    (n2 - 87) as u8
                };
                proof {
                    assert(d1 == hex_val(h1) && d2 == hex_val(h2));
                }
                let code: u16 = (d1 as u16) * 16 + (d2 as u16);
                if code >= 32 {
                    return None;
                }
                if code == 8 || code == 9 || code == 10 || code == 12 || code == 13 {
                    return None;
                }
                let u = (code as u8) as char;
                proof {
                    assert(v@.skip(pos0).skip(6) =~= v@.skip(pos0 + 6));
                    match parse_jstring(v@.skip(pos0 + 6)) {
                        Some((d, rest)) => {
                            assert(acc0.push(u) + d =~= acc0 + (seq![u] + d));
                        },
                        None => {},
                    }
                }
                push_char(&mut acc, u);
                pos = pos + 6;
            } else {
                proof {
                    assert(!is_named_escape(e));
                    assert(parse_jstring(v@.skip(pos0)) is None);
                }
                return None;
            }
        } else {
            let code = c as u32;
            if code < 32 {
                proof {
                    assert(parse_jstring(v@.skip(pos0)) is None);
                }
                return None;
            }
            proof {
                match parse_jstring(v@.skip(pos0 + 1)) {
                    Some((d, rest)) => {
                        assert(acc0.push(c) + d =~= acc0 + (seq![c] + d));
                    },
                    None => {},
                }
            }
            push_char(&mut acc, c);
            pos = pos + 1;
        }
    }
}

fn b64_val_exec(c: char) -> (r: Option<u8>)
    ensures
        match r {
            Some(v) => is_b64_char(c) && v == b64_val(c),
            None => !is_b64_char(c),
        },
{
    let n = c as u32;
    if 65 <= n && n <= 90 {
        Some((n - 65) as u8)
    } else if 97 <= n && n <= 122 {
        Some((n - 71) as u8)
    } else if 48 <= n && n <= 57 {
        Some((n + 4) as u8)
    } else if c == '+' {
        Some(62)
    } else if c == '/' {
        Some(63)
    } else {
        None
    }
}

/// Decode canonical base64 text into bytes.
fn base64_decode_exec(v: &Vec<char>) -> (r: Option<Vec<u8>>)
    ensures
        match r {
            Some(b) => base64_decode(v@) == Some(b@),
            None => base64_decode(v@) is None,
        },
{
    let mut out: Vec<u8> = Vec::new();
    let mut i: usize = 0;
    proof {
        match base64_decode(v@.skip(0)) {
            Some(d) => {
                assert(Seq::<u8>::empty() + d =~= d);
            },
            None => {},
        }
        assert(v@.skip(0) =~= v@);
    }
    loop
        invariant
            i <= v@.len(),
            base64_decode(v@) == (match base64_decode(v@.skip(i as int)) {
                Some(d) => Some(out@ + d),
                None => None::<Seq<u8>>,
            }),
        decreases v@.len() - i,
    {
        let ghost out0 = out@;
        let ghost pos0 = i as int;
        let ghost tail = v@.skip(pos0);
        let rem = v.len() - i;
        if rem == 0 {
            proof {
                assert(base64_decode(tail) == Some(Seq::<u8>::empty()));
                assert(out@ + Seq::<u8>::empty() =~= out@);
            }
            return Some(out);
        }
        if rem < 4 {
            return None;
        }
        proof {
            assert(tail[0] == v@[pos0]);
            assert(tail[1] == v@[pos0 + 1]);
            assert(tail[2] == v@[pos0 + 2]);
            assert(tail[3] == v@[pos0 + 3]);
            assert(tail.skip(4) =~= v@.skip(pos0 + 4));
        }
        let c0 = v[i];
        let c1 = v[i + 1];
        let c2 = v[i + 2];
        let c3 = v[i + 3];
        let v0 = match b64_val_exec(c0) {
            Some(x) => x,
            None => {
                return None;
            },
        };
        let v1 = match b64_val_exec(c1) {
            Some(x) => x,
            None => {
                return None;
            },
        };
        if rem == 4 && c2 == '=' && c3 == '=' {
            if v1 % 16 != 0 {
                return None;
            }
            let b0 = v0 * 4 + v1 / 16;
            out.push(b0);
            proof {
                assert(base64_decode(tail) == Some(seq![b0]));
                assert(out@ =~= out0 + seq![b0]);
            }
            return Some(out);
        } else if rem == 4 && c3 == '=' {
            let v2 = match b64_val_exec(c2) {
                Some(x) => x,
                None => {
                    return None;
                },
            };
            if v2 % 4 != 0 {
                return None;
            }
            let b0 = v0 * 4 + v1 / 16;
            let b1 = (v1 % 16) * 16 + v2 / 4;
            out.push(b0);
            out.push(b1);
            proof {
                assert(base64_decode(tail) == Some(seq![b0, b1]));
                assert(out@ =~= out0 + seq![b0, b1]);
            }
            return Some(out);
        } else {
            let v2 = match b64_val_exec(c2) {
                Some(x) => x,
                None => {
                    return None;
                },
            };
            let v3 = match b64_val_exec(c3) {
                Some(x) => x,
                None => {
                    return None;
                },
            };
            let b0 = v0 * 4 + v1 / 16;
            let b1 = (v1 % 16) * 16 + v2 / 4;
            let b2 = (v2 % 4) * 64 + v3;
            out.push(b0);
            out.push(b1);
            out.push(b2);
            proof {
                assert(out@ =~= out0 + seq![b0, b1, b2]);
                match base64_decode(v@.skip(pos0 + 4)) {
                    Some(d) => {
                        assert(out0 + (seq![b0, b1, b2] + d) =~= out@ + d);
                    },
                    None => {},
                }
            }
            i = i + 4;
        }
    }
}

/// Read one prompt from its JSON form. The reader is canonical: it accepts
/// exactly what [`serialize_prompt`] writes.
#[verifier::rlimit(100)]
pub fn deserialize_prompt(s: &str) -> (r: Option<crate::types::AILanguageModelPrompt>)
    ensures
        match r {
            Some(p) => parse_prompt_spec(s@) == Some(p.deep_view()),
            None => parse_prompt_spec(s@) is None,
        },
{
    let v = str_chars(s);
    proof {
        assert(v@.skip(0) =~= v@);
    }
    let p0 = match expect_exec(&v, 0, "{\"type\":\"") {
        Some(p) => p,
        None => {
            return None;
        },
    };
    let (kind, p1) = match parse_jstring_exec(&v, p0) {
        Some(x) => x,
        None => {
            return None;
        },
    };
    let p2 = match expect_exec(&v, p1, ",\"role\":\"") {
        Some(p) => p,
        None => {
            return None;
        },
    };
    let (role_s, p3) = match parse_jstring_exec(&v, p2) {
        Some(x) => x,
        None => {
            return None;
        },
    };
    let role = if str_equal(role_s.as_str(), "system") {
        AILanguageModelPromptRole::System
    } else if str_equal(role_s.as_str(), "user") {
        AILanguageModelPromptRole::User
    } else if str_equal(role_s.as_str(), "assistant") {
        AILanguageModelPromptRole::Assistant
    } else {
        proof {
            assert(parse_role(role_s@) is None);
        }
        return None;
    };
    proof {
        assert(parse_role(role_s@) == Some(role));
    }
    let p4 = match expect_exec(&v, p3, ",\"content\":\"") {
        Some(p) => p,
        None => {
            return None;
        },
    };
    let (body, p5) = match parse_jstring_exec(&v, p4) {
        Some(x) => x,
        None => {
            return None;
        },
    };
    let closed = p5 < v.len() && v.len() - p5 == 1 && v[p5] == '}';
    proof {
        reveal_strlit("}");
        if closed {
            assert(v@.skip(p5 as int) =~= "}"@);
        } else {
            if v@.skip(p5 as int) == "}"@ {
                assert(v@.skip(p5 as int).len() == 1);
                assert(v@.skip(p5 as int)[0] == v@[p5 as int]);
                assert(v@.skip(p5 as int)[0] == '}');
                assert(false);
            }
        }
    }
    if !closed {
        return None;
    }
    if str_equal(kind.as_str(), "text") {
        Some(crate::types::AILanguageModelPrompt::Text { role, content: body })
    } else if str_equal(kind.as_str(), "image") {
        let bytes = match base64_decode_exec(&str_chars(body.as_str())) {
            Some(b) => b,
            None => {
                return None;
            },
        };
        Some(crate::types::AILanguageModelPrompt::Image { role, content: bytes })
    } else if str_equal(kind.as_str(), "audio") {
        let bytes = match base64_decode_exec(&str_chars(body.as_str())) {
            Some(b) => b,
            None => {
                return None;
            },
        };
        Some(crate::types::AILanguageModelPrompt::Audio { role, content: bytes })
    } else {
        None
    }
}

/// A full JSON string: quoted, escaped body.
pub open spec fn jstring_of(s: Seq<char>) -> Seq<char> {
    seq!['"'] + escape_string(s) + seq!['"']
}

/// The wire tag of an expected-input declaration.
pub open spec fn expected_input_kind_name(k: ExpectedInputKind) -> Seq<char> {
    match k {
        ExpectedInputKind::Text => "text"@,
        ExpectedInputKind::Image => "image"@,
        ExpectedInputKind::Audio => "audio"@,
    }
}

/// The JSON array body of a language list: comma-separated JSON strings.
pub open spec fn languages_json(ls: Seq<Seq<char>>) -> Seq<char>
    decreases ls.len(),
{
    if ls.len() == 0 {
        Seq::empty()
    } else if ls.len() == 1 {
        jstring_of(ls[0])
    } else {
        jstring_of(ls[0]) + seq![','] + languages_json(ls.drop_first())
    }
}

/// Every language so far, each followed by its separating comma.
pub open spec fn languages_sep(ls: Seq<Seq<char>>) -> Seq<char>
    decreases ls.len(),
{
    if ls.len() == 0 {
        Seq::empty()
    } else {
        jstring_of(ls[0]) + seq![','] + languages_sep(ls.drop_first())
    }
}

/// The JSON form of one expected-input declaration:
/// `{"type":KIND,"languages":[..]}`.
pub open spec fn serialize_expected_input_spec(e: ExpectedInputView) -> Seq<char> {
    "{\"type\":\""@ + expected_input_kind_name(e.kind) + "\",\"languages\":["@ + languages_json(
        e.languages,
    ) + "]}"@
}

proof fn lemma_languages_sep_push(ls: Seq<Seq<char>>, l: Seq<char>)
    ensures
        languages_sep(ls.push(l)) == languages_sep(ls) + jstring_of(l) + seq![','],
    decreases ls.len(),
{
    if ls.len() == 0 {
        assert(ls.push(l)[0] == l);
        assert(ls.push(l).drop_first() =~= Seq::<Seq<char>>::empty());
        assert(languages_sep(ls.push(l).drop_first()) == Seq::<char>::empty());
        assert(languages_sep(ls.push(l)) =~= languages_sep(ls) + jstring_of(l) + seq![',']);
    } else {
        assert(ls.push(l)[0] == ls[0]);
        assert(ls.push(l).drop_first() =~= ls.drop_first().push(l));
        lemma_languages_sep_push(ls.drop_first(), l);
        assert(jstring_of(ls[0]) + seq![','] + (languages_sep(ls.drop_first()) + jstring_of(l)
            + seq![',']) =~= (jstring_of(ls[0]) + seq![','] + languages_sep(ls.drop_first()))
            + jstring_of(l) + seq![',']);
        assert(jstring_of(ls.push(l)[0]) + seq![','] + languages_sep(ls.push(l).drop_first())
            =~= languages_sep(ls) + jstring_of(l) + seq![',']);
    }
}

proof fn lemma_languages_json_snoc(ls: Seq<Seq<char>>, l: Seq<char>)
    ensures
        languages_json(ls.push(l)) == if ls.len() == 0 {
            jstring_of(l)
        } else {
            languages_json(ls) + seq![','] + jstring_of(l)
        },
    decreases ls.len(),
{
    let p = ls.push(l);
    if ls.len() == 0 {
        assert(p[0] == l);
        assert(languages_json(p) =~= jstring_of(l));
    } else if ls.len() == 1 {
        assert(p.drop_first() =~= ls.drop_first().push(l));
        assert(p[0] == ls[0]);
        assert(p.len() == 2);
        lemma_languages_json_snoc(ls.drop_first(), l);
        assert(languages_json(p.drop_first()) == jstring_of(l));
        assert(jstring_of(p[0]) + seq![','] + languages_json(p.drop_first()) =~= languages_json(
            ls,
        ) + seq![','] + jstring_of(l));
    } else {
        assert(p.drop_first() =~= ls.drop_first().push(l));
        assert(p[0] == ls[0]);
        lemma_languages_json_snoc(ls.drop_first(), l);
        assert(jstring_of(p[0]) + seq![','] + (languages_json(ls.drop_first()) + seq![',']
            + jstring_of(l)) =~= (jstring_of(ls[0]) + seq![','] + languages_json(ls.drop_first()))
            + seq![','] + jstring_of(l));
    }
}

proof fn lemma_languages_json_last(ls: Seq<Seq<char>>)
    requires
        ls.len() >= 1,
    ensures
        languages_json(ls) == languages_sep(ls.drop_last()) + jstring_of(ls.last()),
    decreases ls.len(),
{
    if ls.len() == 1 {
        assert(ls.drop_last() =~= Seq::<Seq<char>>::empty());
        assert(languages_sep(ls.drop_last()) + jstring_of(ls.last()) =~= jstring_of(ls[0]));
    } else {
        lemma_languages_json_last(ls.drop_first());
        assert(ls.drop_first().last() == ls.last());
        assert(ls.drop_first().drop_last() =~= ls.drop_last().drop_first());
        assert(ls.drop_last()[0] == ls[0]);
        assert(jstring_of(ls[0]) + seq![','] + (languages_sep(ls.drop_last().drop_first())
            + jstring_of(ls.last())) =~= (jstring_of(ls.drop_last()[0]) + seq![',']
            + languages_sep(ls.drop_last().drop_first())) + jstring_of(ls.last()));
    }
}

proof fn lemma_expect_inverse(s: Seq<char>, lit: Seq<char>)
    ensures
        expect(s, lit) matches Some(r) ==> s == lit + r,
{
    if expect(s, lit) is Some {
        assert(s =~= s.take(lit.len() as int) + s.skip(lit.len() as int));
    }
}

/// A lowercase hex digit survives the round trip through its value.
proof fn lemma_hex_val_inverse(c: char)
    requires
        is_hex_lower(c),
    ensures
        hex_digit(hex_val(c)) == c,
{
    lemma_char_code_roundtrip(c);
}

/// The string-body parser only accepts the canonical escape of what it
/// decodes: whatever it consumed is the escape of the decoded text.
proof fn lemma_parse_jstring_inverse(s: Seq<char>)
    ensures
        parse_jstring(s) matches Some(r) ==> s == escape_string(r.0) + seq!['"'] + r.1,
    decreases s.len(),
{
    if s.len() == 0 {
    } else if s[0] == '"' {
        match parse_jstring(s) {
            Some((d, rest)) => {
                assert(escape_string(d) + seq!['"'] + rest =~= s);
            },
            None => {},
        }
    } else if s[0] == '\\' {
        if s.len() >= 2 && is_named_escape(s[1]) {
            lemma_parse_jstring_inverse(s.skip(2));
            match parse_jstring(s.skip(2)) {
                None => {},
                Some((d1, rest)) => {
                let u = named_escape_value(s[1]);
                assert(escape_char(u) =~= seq![s[0], s[1]]) by {
                    if s[1] != '"' && s[1] != '\\' {
                        lemma_code_char_roundtrip((u as u32) as u8);
                    }
                }
                assert((seq![u] + d1)[0] == u);
                assert((seq![u] + d1).drop_first() =~= d1);
                assert(escape_string(seq![u] + d1) == escape_char(u) + escape_string(d1));
                assert(escape_string(seq![u] + d1) + seq!['"'] + rest =~= s) by {
                    assert(s.skip(2) == escape_string(d1) + seq!['"'] + rest);
                    assert(s =~= seq![s[0], s[1]] + s.skip(2));
                }
                },
            }
        } else if s.len() >= 6 && s[1] == 'u' && s[2] == '0' && s[3] == '0' && is_hex_lower(s[4])
            && is_hex_lower(s[5]) && hex_val(s[4]) * 16 + hex_val(s[5]) < 32
            && !code_has_named_escape(hex_val(s[4]) * 16 + hex_val(s[5])) {
            lemma_parse_jstring_inverse(s.skip(6));
            match parse_jstring(s.skip(6)) {
                None => {},
                Some((d1, rest)) => {
                let n = hex_val(s[4]) * 16 + hex_val(s[5]);
                let u = ((n as u8) as char);
                lemma_code_char_roundtrip(n as u8);
                assert(u as u32 == n);
                vstd::arithmetic::div_mod::lemma_div_multiples_vanish_fancy(
                    hex_val(s[4]),
                    hex_val(s[5]),
                    16,
                );
                vstd::arithmetic::div_mod::lemma_mod_multiples_vanish(
                    hex_val(s[4]),
                    hex_val(s[5]),
                    16,
                );
                vstd::arithmetic::div_mod::lemma_small_mod(
                    hex_val(s[5]) as nat,
                    16nat,
                );
                assert(n / 16 == hex_val(s[4]) && n % 16 == hex_val(s[5]));
                lemma_hex_val_inverse(s[4]);
                lemma_hex_val_inverse(s[5]);
                assert(escape_char(u) =~= seq![s[0], s[1], s[2], s[3], s[4], s[5]]);
                assert((seq![u] + d1)[0] == u);
                assert((seq![u] + d1).drop_first() =~= d1);
                assert(escape_string(seq![u] + d1) == escape_char(u) + escape_string(d1));
                assert(escape_string(seq![u] + d1) + seq!['"'] + rest =~= s) by {
                    assert(s.skip(6) == escape_string(d1) + seq!['"'] + rest);
                    assert(s =~= seq![s[0], s[1], s[2], s[3], s[4], s[5]] + s.skip(6));
                }
                },
            }
        }
    } else if (s[0] as u32) >= 32 {
        lemma_parse_jstring_inverse(s.drop_first());
        match parse_jstring(s.drop_first()) {
            None => {},
            Some((d1, rest)) => {
            let u = s[0];
            assert(escape_char(u) =~= seq![u]);
            assert((seq![u] + d1)[0] == u);
            assert((seq![u] + d1).drop_first() =~= d1);
            assert(escape_string(seq![u] + d1) == escape_char(u) + escape_string(d1));
            assert(escape_string(seq![u] + d1) + seq!['"'] + rest =~= s) by {
                assert(s.drop_first() == escape_string(d1) + seq!['"'] + rest);
                assert(s =~= seq![u] + s.drop_first());
            }
            },
        }
    }
}

/// Write one expected-input declaration in its JSON form.
pub fn serialize_expected_input(e: &AILanguageModelExpectedInput) -> (r: String)
    ensures
        r@ == serialize_expected_input_spec(e.deep_view()),
{
    let mut out = String::new();
    out.append("{\"type\":\"");
    match e {
        AILanguageModelExpectedInput::Text { .. } => out.append("text"),
        AILanguageModelExpectedInput::Image { .. } => out.append("image"),
        AILanguageModelExpectedInput::Audio { .. } => out.append("audio"),
    };
    out.append("\",\"languages\":[");
    let languages = match e {
        AILanguageModelExpectedInput::Text { languages } => languages,
        AILanguageModelExpectedInput::Image { languages } => languages,
        AILanguageModelExpectedInput::Audio { languages } => languages,
    };
    let ghost lv = languages.deep_view();
    let ghost mid = out@;
    let n = languages.len();
    let mut i: usize = 0;
    proof {
        assert(lv.take(0) =~= Seq::<Seq<char>>::empty());
        assert(mid + languages_json(lv.take(0)) =~= mid);
    }
    while i < n
        invariant
            n == languages@.len(),
            lv == languages.deep_view(),
            i <= n,
            out@ == mid + languages_json(lv.take(i as int)),
        decreases n - i,
    {
        let ghost prev = out@;
        if i > 0 {
            out.append(",");
        }
        out.append("\"");
        append_escaped(&mut out, languages[i].as_str());
        out.append("\"");
        proof {
            reveal_strlit("\"");
            reveal_strlit(",");
            assert(lv[i as int] == languages@[i as int]@);
            lemma_languages_json_snoc(lv.take(i as int), lv[i as int]);
            assert(lv.take(i as int).push(lv[i as int]) =~= lv.take(i as int + 1));
            if i == 0 {
                assert(out@ =~= prev + jstring_of(lv[i as int]));
                assert(out@ =~= mid + languages_json(lv.take(i as int + 1)));
            } else {
                assert(out@ =~= prev + (seq![','] + jstring_of(lv[i as int])));
                assert(out@ =~= mid + languages_json(lv.take(i as int + 1)));
            }
        }
        i = i + 1;
    }
    proof {
        assert(lv.take(n as int) =~= lv);
    }
    out.append("]}");
    proof {
        assert(out@ =~= serialize_expected_input_spec(e.deep_view()));
    }
    out
}

/// The string-body parser consumes at least the closing quote.
pub proof fn lemma_parse_jstring_shrinks(s: Seq<char>)
    ensures
        parse_jstring(s) matches Some(r) ==> r.1.len() < s.len(),
    decreases s.len(),
{
    if s.len() == 0 {
    } else if s[0] == '"' {
    } else if s[0] == '\\' {
        if s.len() >= 2 && is_named_escape(s[1]) {
            lemma_parse_jstring_shrinks(s.skip(2));
        } else if s.len() >= 6 && s[1] == 'u' && s[2] == '0' && s[3] == '0' && is_hex_lower(s[4])
            && is_hex_lower(s[5]) && hex_val(s[4]) * 16 + hex_val(s[5]) < 32
            && !code_has_named_escape(hex_val(s[4]) * 16 + hex_val(s[5])) {
            lemma_parse_jstring_shrinks(s.skip(6));
        }
    } else if (s[0] as u32) >= 32 {
        lemma_parse_jstring_shrinks(s.drop_first());
    }
}

/// Parse one or more comma-separated JSON strings followed by the closing
/// bracket: the decoded elements and what follows the bracket.
pub open spec fn parse_languages(s: Seq<char>) -> Option<(Seq<Seq<char>>, Seq<char>)>
    decreases s.len(),
    via parse_languages_decreases
{
    if s.len() == 0 || s[0] != '"' {
        None
    } else {
        match parse_jstring(s.drop_first()) {
            None => None,
            Some((d, rest)) => {
                if rest.len() >= 1 && rest[0] == ',' {
                    match parse_languages(rest.drop_first()) {
                        None => None,
                        Some((ls, after)) => Some((seq![d] + ls, after)),
                    }
                } else if rest.len() >= 1 && rest[0] == ']' {
                    Some((seq![d], rest.drop_first()))
                } else {
                    None
                }
            },
        }
    }
}

#[via_fn]
proof fn parse_languages_decreases(s: Seq<char>) {
    if s.len() > 0 && s[0] == '"' {
        lemma_parse_jstring_shrinks(s.drop_first());
    }
}

/// Parse a whole JSON language array body: empty, or comma-separated
/// strings, up to and including the closing bracket.
pub open spec fn parse_language_list(s: Seq<char>) -> Option<(Seq<Seq<char>>, Seq<char>)> {
    if s.len() >= 1 && s[0] == ']' {
        Some((Seq::empty(), s.drop_first()))
    } else {
        parse_languages(s)
    }
}

/// The kind an expected-input wire tag denotes.
pub open spec fn parse_expected_input_kind(s: Seq<char>) -> Option<ExpectedInputKind> {
    if s == "text"@ {
        Some(ExpectedInputKind::Text)
    } else if s == "image"@ {
        Some(ExpectedInputKind::Image)
    } else if s == "audio"@ {
        Some(ExpectedInputKind::Audio)
    } else {
        None
    }
}

/// Parse the canonical JSON form of an expected-input declaration: the
/// inverse of [`serialize_expected_input_spec`].
pub open spec fn parse_expected_input_spec(s: Seq<char>) -> Option<ExpectedInputView> {
    match expect(s, "{\"type\":\""@) {
        None => None,
        Some(r0) => match parse_jstring(r0) {
            None => None,
            Some((kind, r1)) => match expect(r1, ",\"languages\":["@) {
                None => None,
                Some(r2) => match parse_language_list(r2) {
                    None => None,
                    Some((languages, r3)) => {
                        if r3 == "}"@ {
                            match parse_expected_input_kind(kind) {
                                Some(k) => Some(ExpectedInputView { kind: k, languages }),
                                None => None,
                            }
                        } else {
                            None
                        }
                    },
                },
            },
        },
    }
}

/// Read one expected-input declaration from its JSON form. The reader is
/// canonical: it accepts exactly what [`serialize_expected_input`] writes,
/// and whatever it accepts re-serializes to the input.
#[verifier::rlimit(100)]
pub fn deserialize_expected_input(s: &str) -> (r: Option<AILanguageModelExpectedInput>)
    ensures
        match r {
            Some(x) => {
                &&& parse_expected_input_spec(s@) == Some(x.deep_view())
                &&& s@ == serialize_expected_input_spec(x.deep_view())
            },
            None => parse_expected_input_spec(s@) is None,
        },
{
    let v = str_chars(s);
    proof {
        assert(v@.skip(0) =~= v@);
    }
    let p0 = match expect_exec(&v, 0, "{\"type\":\"") {
        Some(p) => p,
        None => {
            return None;
        },
    };
    let (kind, p1) = match parse_jstring_exec(&v, p0) {
        Some(x) => x,
        None => {
            return None;
        },
    };
    let p2 = match expect_exec(&v, p1, ",\"languages\":[") {
        Some(p) => p,
        None => {
            return None;
        },
    };
    let mut langs: Vec<String> = Vec::new();
    let mut end_list: usize = 0;
    if p2 < v.len() && v[p2] == ']' {
        end_list = p2 + 1;
        proof {
            assert(languages_json(langs.deep_view()) =~= Seq::<char>::empty());
            assert(v@.skip(p2 as int) =~= languages_json(langs.deep_view()) + seq![']'] + v@.skip(
                end_list as int,
            ));
            assert(v@.skip(p2 as int)[0] == v@[p2 as int]);
            assert(parse_language_list(v@.skip(p2 as int)) == Some(
                (langs.deep_view(), v@.skip(end_list as int)),
            )) by {
                assert(v@.skip(p2 as int).drop_first() =~= v@.skip(end_list as int));
            }
        }
    } else {
        let mut pos = p2;
        proof {
            assert(languages_sep(langs.deep_view()) =~= Seq::<char>::empty());
            assert(v@.skip(p2 as int) =~= languages_sep(langs.deep_view()) + v@.skip(pos as int));
            if v@.skip(p2 as int).len() >= 1 {
                assert(v@.skip(p2 as int)[0] == v@[p2 as int]);
            }
            match parse_languages(v@.skip(p2 as int)) {
                Some(t) => {
                    assert(langs.deep_view() + t.0 =~= t.0);
                },
                None => {},
            }
        }
        loop
            invariant_except_break
                v@ == s@,
                p2 <= pos <= v@.len(),
                expect(s@, "{\"type\":\""@) == Some(v@.skip(p0 as int)),
                parse_jstring(v@.skip(p0 as int)) == Some((kind@, v@.skip(p1 as int))),
                expect(v@.skip(p1 as int), ",\"languages\":["@) == Some(v@.skip(p2 as int)),
                parse_language_list(v@.skip(p2 as int)) == parse_languages(v@.skip(p2 as int)),
                v@.skip(p2 as int) == languages_sep(langs.deep_view()) + v@.skip(pos as int),
                (match parse_languages(v@.skip(pos as int)) {
                    Some(t) => parse_languages(v@.skip(p2 as int)) == Some(
                        (langs.deep_view() + t.0, t.1),
                    ),
                    None => parse_languages(v@.skip(p2 as int)) is None,
                }),
            ensures
                end_list <= v@.len(),
                v@.skip(p2 as int) == languages_json(langs.deep_view()) + seq![']'] + v@.skip(
                    end_list as int,
                ),
                parse_language_list(v@.skip(p2 as int)) == Some(
                    (langs.deep_view(), v@.skip(end_list as int)),
                ),
            decreases v@.len() - pos,
        {
            if pos >= v.len() {
                proof {
                    assert(v@.skip(pos as int).len() == 0);
                    assert(parse_languages(v@.skip(pos as int)) is None);
                    assert(parse_expected_input_spec(s@) is None);
                }
                return None;
            }
            proof {
                assert(v@.skip(pos as int)[0] == v@[pos as int]);
            }
            if v[pos] != '"' {
                proof {
                    assert(parse_languages(v@.skip(pos as int)) is None);
                    assert(parse_expected_input_spec(s@) is None);
                }
                return None;
            }
            proof {
                assert(v@.skip(pos as int).drop_first() =~= v@.skip(pos as int + 1));
            }
            let (lang, pn) = match parse_jstring_exec(&v, pos + 1) {
                Some(x) => x,
                None => {
                    proof {
                        assert(parse_languages(v@.skip(pos as int)) is None);
                        assert(parse_expected_input_spec(s@) is None);
                    }
                    return None;
                },
            };
            let ghost langs0 = langs.deep_view();
            let ghost lng = lang@;
            proof {
                lemma_parse_jstring_inverse(v@.skip(pos as int + 1));
                assert(v@.skip(pos as int) =~= seq!['"'] + v@.skip(pos as int + 1));
                assert(v@.skip(pos as int) =~= jstring_of(lng) + v@.skip(pn as int));
                if pn < v@.len() {
                    assert(v@.skip(pn as int)[0] == v@[pn as int]);
                }
            }
            langs.push(lang);
            proof {
                assert(langs.deep_view() =~= langs0.push(lng));
            }
            if pn < v.len() && v[pn] == ',' {
                proof {
                    assert(v@.skip(pn as int) =~= seq![','] + v@.skip(pn as int + 1));
                    lemma_languages_sep_push(langs0, lng);
                    assert(v@.skip(p2 as int) =~= languages_sep(langs.deep_view()) + v@.skip(
                        pn as int + 1,
                    ));
                    assert(v@.skip(pn as int).drop_first() =~= v@.skip(pn as int + 1));
                    match parse_languages(v@.skip(pn as int + 1)) {
                        Some(t) => {
                            assert(parse_languages(v@.skip(pos as int)) == Some(
                                (seq![lng] + t.0, t.1),
                            ));
                            assert(langs0 + (seq![lng] + t.0) =~= langs0.push(lng) + t.0);
                        },
                        None => {
                            assert(parse_languages(v@.skip(pos as int)) is None);
                        },
                    }
                }
                pos = pn + 1;
            } else if pn < v.len() && v[pn] == ']' {
                end_list = pn + 1;
                proof {
                    assert(v@.skip(pn as int) =~= seq![']'] + v@.skip(pn as int + 1));
                    lemma_languages_json_last(langs.deep_view());
                    assert(langs.deep_view().drop_last() =~= langs0);
                    assert(v@.skip(p2 as int) =~= languages_json(langs.deep_view()) + seq![']']
                        + v@.skip(end_list as int));
                    assert(v@.skip(pn as int).drop_first() =~= v@.skip(end_list as int));
                    assert(parse_languages(v@.skip(pos as int)) == Some(
                        (seq![lng], v@.skip(end_list as int)),
                    ));
                    assert(langs0 + seq![lng] =~= langs.deep_view());
                }
                break;
            } else {
                proof {
                    assert(parse_languages(v@.skip(pos as int)) is None);
                    assert(parse_expected_input_spec(s@) is None);
                }
                return None;
            }
        }
    }
    let closed = end_list < v.len() && v.len() - end_list == 1 && v[end_list] == '}';
    proof {
        reveal_strlit("}");
        if closed {
            assert(v@.skip(end_list as int) =~= "}"@);
        } else {
            if v@.skip(end_list as int) == "}"@ {
                assert(v@.skip(end_list as int).len() == 1);
                assert(v@.skip(end_list as int)[0] == v@[end_list as int]);
                assert(v@.skip(end_list as int)[0] == '}');
                assert(false);
            }
        }
    }
    if !closed {
        return None;
    }
    let ghost lsv = langs.deep_view();
    let x = if str_equal(kind.as_str(), "text") {
        AILanguageModelExpectedInput::Text { languages: langs }
    } else if str_equal(kind.as_str(), "image") {
        AILanguageModelExpectedInput::Image { languages: langs }
    } else if str_equal(kind.as_str(), "audio") {
        AILanguageModelExpectedInput::Audio { languages: langs }
    } else {
        proof {
            assert(parse_expected_input_kind(kind@) is None);
        }
        return None;
    };
    proof {
        assert(parse_expected_input_kind(kind@) == Some(x.deep_view().kind));
        assert(parse_expected_input_spec(s@) == Some(x.deep_view()));
        lemma_expect_inverse(v@.skip(0), "{\"type\":\""@);
        lemma_parse_jstring_inverse(v@.skip(p0 as int));
        lemma_expect_inverse(v@.skip(p1 as int), ",\"languages\":["@);
        lemma_names_escape_id();
        reveal_strlit("\",\"languages\":[");
        reveal_strlit(",\"languages\":[");
        reveal_strlit("]}");
        assert(v@ == "{\"type\":\""@ + v@.skip(p0 as int));
        assert(v@.skip(p0 as int) == escape_string(kind@) + seq!['"'] + v@.skip(p1 as int));
        assert(v@.skip(p1 as int) == ",\"languages\":["@ + v@.skip(p2 as int));
        assert(escape_string(kind@) == expected_input_kind_name(x.deep_view().kind));
        assert(x.deep_view().languages == lsv);
        assert(s@ =~= serialize_expected_input_spec(x.deep_view()));
    }
    Some(x)
}

} // verus!
