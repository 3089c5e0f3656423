//! Payloads written by hand: hexadecimal digits, and text with escapes.

use vstd::prelude::*;
use vstd::utf8::encode_utf8;
use crate::mqtt::wire::utf8_len;
use crate::text::{
    chars_of, hex_pair, spec_hex_pair, spec_is_whitespace, string_of,
};

verus! {

/// The text without its white space.
pub open spec fn spec_strip_whitespace(s: Seq<char>) -> Seq<char> {
    s.filter(|c: char| !spec_is_whitespace(c))
}

/// Whether the characters, taken two by two, all spell bytes.
pub open spec fn spec_hex_pairs_valid(t: Seq<char>) -> bool {
    &&& t.len() % 2 == 0
    &&& forall|k: int|
        0 <= k < t.len() / 2 ==> (#[trigger] spec_hex_pair(t[2 * k], t[2 * k + 1])) is Some
}

/// The bytes that the characters spell, two characters to a byte.
pub open spec fn spec_hex_bytes(t: Seq<char>) -> Seq<u8> {
    Seq::new((t.len() / 2) as nat, |k: int| spec_hex_pair(t[2 * k], t[2 * k + 1]).unwrap())
}

/// What parsing hexadecimal digits yields. White space is dropped first.
/// An odd number of bytes of text is reported as such; then each pair of
/// characters must spell a byte.
pub open spec fn spec_parse_hex(s: Seq<char>) -> Result<Seq<u8>, Seq<char>> {
    let t = spec_strip_whitespace(s);
    if encode_utf8(t).len() % 2 != 0 {
        Err("odd number of hex digits"@)
    } else if spec_hex_pairs_valid(t) {
        Ok(spec_hex_bytes(t))
    } else {
        Err("invalid digit found in string"@)
    }
}

/// The outcome of a parse with the bytes and the message as sequences.
pub open spec fn spec_bytes_outcome(r: Result<Vec<u8>, String>) -> Result<Seq<u8>, Seq<char>> {
    match r {
        Ok(bytes) => Ok(bytes@),
        Err(message) => Err(message@),
    }
}

/// The characters of `s` that are not white space, in order.
pub fn strip_whitespace(s: &[char]) -> (t: Vec<char>)
    ensures
        t@ == spec_strip_whitespace(s@),
{
    let mut t: Vec<char> = Vec::new();
    let mut i: usize = 0;
    while i < s.len()
        invariant
            i <= s@.len(),
            t@ == spec_strip_whitespace(s@.take(i as int)),
        decreases s@.len() - i,
    {
        let c = s[i];
        proof {
            reveal(Seq::filter);
            assert(s@.take(i as int + 1).drop_last() =~= s@.take(i as int));
        }
        if !c.is_whitespace() {
            t.push(c);
        }
        i += 1;
    }
    assert(s@.take(s@.len() as int) =~= s@);
    t
}

/// Parses bytes written as hexadecimal digits, white space allowed
/// anywhere.
pub fn parse_hex(s: &str) -> (r: Result<Vec<u8>, String>)
    ensures
        spec_bytes_outcome(r) == spec_parse_hex(s@),
{
    let all = chars_of(s);
    let t = strip_whitespace(all.as_slice());
    let stripped = string_of(t.as_slice());
    if utf8_len(stripped.as_str()) % 2 != 0 {
        return Err("odd number of hex digits".to_owned());
    }
    let mut bytes: Vec<u8> = Vec::new();
    let mut i: usize = 0;
    while i + 1 < t.len()
        invariant
            t@ == spec_strip_whitespace(s@),
            encode_utf8(t@).len() % 2 == 0,
            i % 2 == 0,
            i <= t@.len(),
            bytes@.len() == i / 2,
            forall|k: int|
                0 <= k < i / 2 ==> (#[trigger] spec_hex_pair(t@[2 * k], t@[2 * k + 1])) is Some,
            forall|k: int|
                0 <= k < i / 2 ==> bytes@[k] == (#[trigger] spec_hex_pair(
                    t@[2 * k],
                    t@[2 * k + 1],
                )).unwrap(),
        decreases t@.len() - i,
    {
        match hex_pair(t[i], t[i + 1]) {
            Some(b) => bytes.push(b),
            None => {
                assert(!spec_hex_pairs_valid(t@)) by {
                    let k = i as int / 2;
                    assert(spec_hex_pair(t@[2 * k], t@[2 * k + 1]) is None);
                }
                return Err("invalid digit found in string".to_owned());
            },
        }
        i += 2;
    }
    if i < t.len() {
        return Err("invalid digit found in string".to_owned());
    }
    assert(bytes@ =~= spec_hex_bytes(t@));
    Ok(bytes)
}

/// The low eight bits of a character's code point.
pub open spec fn spec_low_byte(c: char) -> u8 {
    (c as u32 % 256) as u8
}

/// The up to two characters behind `\x`.
pub open spec fn spec_escape_digits(s: Seq<char>) -> Seq<char> {
    s.subrange(2, if s.len() < 4 { s.len() as int } else { 4 })
}

/// The bytes that a text with escapes stands for. `\n`, `\r`, `\t`, `\0`
/// and `\\` stand for one byte each; `\x` or `\X` with two characters that
/// spell a byte stands for that byte, and otherwise for `\x` and those
/// characters as they are; a backslash before anything else stands for
/// itself; every other character stands for the low byte of its code point.
pub open spec fn spec_unescape(s: Seq<char>) -> Seq<u8>
    decreases s.len(),
{
    if s.len() == 0 {
        Seq::empty()
    } else if s[0] != '\\' {
        seq![spec_low_byte(s[0])] + spec_unescape(s.skip(1))
    } else if s.len() == 1 {
        seq![0x5Cu8]
    } else if s[1] == 'x' || s[1] == 'X' {
        let digits = spec_escape_digits(s);
        let rest = spec_unescape(s.skip(2 + digits.len() as int));
        if digits.len() == 2 && spec_hex_pair(digits[0], digits[1]) is Some {
            seq![spec_hex_pair(digits[0], digits[1]).unwrap()] + rest
        } else {
            seq![0x5Cu8, 0x78u8] + encode_utf8(digits) + rest
        }
    } else if s[1] == 'n' {
        seq![0x0Au8] + spec_unescape(s.skip(2))
    } else if s[1] == 'r' {
        seq![0x0Du8] + spec_unescape(s.skip(2))
    } else if s[1] == 't' {
        seq![0x09u8] + spec_unescape(s.skip(2))
    } else if s[1] == '0' {
        seq![0x00u8] + spec_unescape(s.skip(2))
    } else if s[1] == '\\' {
        seq![0x5Cu8] + spec_unescape(s.skip(2))
    } else {
        seq![0x5Cu8] + spec_unescape(s.skip(1))
    }
}

/// The bytes that the text at the front of `s` stands for, and how many
/// characters of `s` that takes. `s` is not empty.
fn unescape_step(s: &[char], at: usize, out: &mut Vec<u8>) -> (next: usize)
    requires
        at < s@.len(),
    ensures
        at < next <= s@.len(),
        final(out)@ + spec_unescape(s@.skip(next as int)) == old(out)@ + spec_unescape(
            s@.skip(at as int),
        ),
{
    let ghost here = s@.skip(at as int);
    let ghost before = out@;
    let c = s[at];
    assert(here[0] == c);
    if c != '\\' {
        out.push((c as u32 % 256) as u8);
        assert(here.skip(1) =~= s@.skip(at + 1));
        assert(out@ + spec_unescape(s@.skip(at + 1)) =~= before + spec_unescape(here));
        return at + 1;
    }
    if at + 1 >= s.len() {
        out.push(0x5C);
        assert(s@.skip(at + 1) =~= Seq::<char>::empty());
        assert(out@ + spec_unescape(s@.skip(at + 1)) =~= before + spec_unescape(here));
        return at + 1;
    }
    let n = s[at + 1];
    assert(here[1] == n);
    if n == 'x' || n == 'X' {
        let complete = s.len() - at >= 4;
        let end = if complete {
            at + 4
        } else {
            s.len()
        };
        let ghost digits = spec_escape_digits(here);
        assert(digits =~= s@.subrange(at + 2, end as int));
        assert(here.skip(2 + digits.len() as int) =~= s@.skip(end as int));
        if complete {
            if let Some(b) = hex_pair(s[at + 2], s[at + 3]) {
                out.push(b);
                assert(out@ + spec_unescape(s@.skip(end as int)) =~= before + spec_unescape(here));
                return end;
            }
        }
        out.push(0x5C);
        out.push(0x78);
        let text = string_of(&s[at + 2..end]);
        out.extend_from_slice(text.as_str().as_bytes());
        assert(out@ + spec_unescape(s@.skip(end as int)) =~= before + spec_unescape(here));
        return end;
    }
    let (byte, taken): (u8, usize) = if n == 'n' {
        (0x0A, 2)
    } else if n == 'r' {
        (0x0D, 2)
    } else if n == 't' {
        (0x09, 2)
    } else if n == '0' {
        (0x00, 2)
    } else if n == '\\' {
        (0x5C, 2)
    } else {
        (0x5C, 1)
    };
    out.push(byte);
    assert(here.skip(taken as int) =~= s@.skip(at + taken));
    assert(out@ + spec_unescape(s@.skip(at + taken)) =~= before + spec_unescape(here));
    at + taken
}

/// The bytes that a text with escapes stands for.
pub fn parse_text_with_escapes(s: &str) -> (bytes: Vec<u8>)
    ensures
        bytes@ == spec_unescape(s@),
{
    let chars = chars_of(s);
    let mut result: Vec<u8> = Vec::new();
    let mut i: usize = 0;
    assert(chars@.skip(0) =~= chars@);
    while i < chars.len()
        invariant
            i <= chars@.len(),
            chars@ == s@,
            result@ + spec_unescape(chars@.skip(i as int)) == spec_unescape(s@),
        decreases chars@.len() - i,
    {
        i = unescape_step(chars.as_slice(), i, &mut result);
    }
    assert(chars@.skip(i as int) =~= Seq::<char>::empty());
    assert(result@ + Seq::<u8>::empty() =~= result@);
    result
}

} // verus!
