//! Readers and writers for the primitive fields: big-endian 16-bit integers
//! and length-prefixed strings.

use vstd::prelude::*;
use vstd::slice::slice_to_vec;
use vstd::string::StringSliceAdditionalSpecFns;
use vstd::utf8::{decode_utf8, encode_utf8, valid_utf8};
use vstd::utf8::encode_utf8_decode_utf8;
use crate::mqtt::error::{spec_too_short, DecodeError};

verus! {

/// The largest byte length that a 16-bit length prefix can announce.
pub const MAX_FIELD_LEN: usize = 65535;

/// The value of two bytes read as a big-endian 16-bit integer.
pub open spec fn spec_u16_from_be(hi: u8, lo: u8) -> u16 {
    (hi as int * 256 + lo as int) as u16
}

/// The two bytes of a 16-bit integer, most significant first.
pub open spec fn spec_u16_be(v: u16) -> Seq<u8> {
    seq![(v as int / 256) as u8, (v as int % 256) as u8]
}

/// What reading a big-endian 16-bit integer at `offset` yields: the value,
/// or `BufferTooShort` with the `offset + 2` bytes that the read needs.
pub open spec fn spec_read_u16(buf: Seq<u8>, offset: int) -> Result<u16, DecodeError> {
    if buf.len() < offset + 2 {
        Err(spec_too_short(offset + 2, buf.len()))
    } else {
        Ok(spec_u16_from_be(buf[offset], buf[offset + 1]))
    }
}

/// What reading a length-prefixed string at `offset` yields: the text and
/// the offset just behind it. The prefix is read first, then the announced
/// bytes must be present, then they must be valid UTF-8.
pub open spec fn spec_read_string(buf: Seq<u8>, offset: int) -> Result<
    (Seq<char>, int),
    DecodeError,
> {
    match spec_read_u16(buf, offset) {
        Err(e) => Err(e),
        Ok(len) => {
            let end = offset + 2 + len as int;
            if buf.len() < end {
                Err(spec_too_short(end, buf.len()))
            } else if !valid_utf8(buf.subrange(offset + 2, end)) {
                Err(DecodeError::InvalidUtf8)
            } else {
                Ok((decode_utf8(buf.subrange(offset + 2, end)), end))
            }
        },
    }
}

/// What reading a length-prefixed byte string at `offset` yields: the bytes
/// and the offset just behind them.
pub open spec fn spec_read_bytes(buf: Seq<u8>, offset: int) -> Result<(Seq<u8>, int), DecodeError> {
    match spec_read_u16(buf, offset) {
        Err(e) => Err(e),
        Ok(len) => {
            let end = offset + 2 + len as int;
            if buf.len() < end {
                Err(spec_too_short(end, buf.len()))
            } else {
                Ok((buf.subrange(offset + 2, end), end))
            }
        },
    }
}

/// The wire form of a byte string: its length as a big-endian 16-bit
/// integer, then the bytes.
pub open spec fn spec_bytes_wire(bytes: Seq<u8>) -> Seq<u8> {
    spec_u16_be(bytes.len() as u16) + bytes
}

/// The wire form of a string: the length of its UTF-8 encoding as a
/// big-endian 16-bit integer, then the encoding.
pub open spec fn spec_string_wire(s: Seq<char>) -> Seq<u8> {
    spec_bytes_wire(encode_utf8(s))
}

/// Whether a string's UTF-8 encoding is short enough for its length prefix.
pub open spec fn spec_string_fits(s: Seq<char>) -> bool {
    encode_utf8(s).len() <= MAX_FIELD_LEN
}

/// The number of bytes in the UTF-8 encoding of a string.
pub fn utf8_len(s: &str) -> (len: usize)
    ensures
        len == encode_utf8(s@).len(),
{
    s.as_bytes().len()
}

/// Reads a big-endian 16-bit integer at `offset`.
pub fn read_u16(buf: &[u8], offset: usize) -> (r: Result<u16, DecodeError>)
    requires
        offset + 2 <= usize::MAX,
    ensures
        r == spec_read_u16(buf@, offset as int),
{
    if buf.len() < offset + 2 {
        return Err(DecodeError::BufferTooShort { expected: offset + 2, actual: buf.len() });
    }
    let hi: u16 = buf[offset] as u16;
    let lo: u16 = buf[offset + 1] as u16;
    Ok(hi * 256 + lo)
}

/// `core::str::from_utf8`: the bytes are accepted exactly when they are
/// well-formed UTF-8, and the string slice handed back then consists of
/// those same bytes.
#[verifier::external_body]
pub(crate) fn str_from_utf8(bytes: &[u8]) -> (r: Option<&str>)
    ensures
        r is Some <==> valid_utf8(bytes@),
        r matches Some(s) ==> s.spec_bytes() == bytes@,
{
    match core::str::from_utf8(bytes) {
        Ok(s) => Some(s),
        Err(_) => None,
    }
}

/// Reads a length-prefixed string at `offset`; hands back the text and the
/// offset of the byte behind it.
pub fn read_string(buf: &[u8], offset: usize) -> (r: Result<(String, usize), DecodeError>)
    requires
        offset + 2 + MAX_FIELD_LEN <= usize::MAX,
    ensures
        match r {
            Ok((s, end)) => spec_read_string(buf@, offset as int) == Ok::<_, DecodeError>(
                (s@, end as int),
            ),
            Err(e) => spec_read_string(buf@, offset as int) == Err::<(Seq<char>, int), _>(e),
        },
{
    let len = match read_u16(buf, offset) {
        Ok(len) => len as usize,
        Err(e) => {
            return Err(e);
        },
    };
    let end = offset + 2 + len;
    if buf.len() < end {
        return Err(DecodeError::BufferTooShort { expected: end, actual: buf.len() });
    }
    match str_from_utf8(&buf[offset + 2..end]) {
        Some(s) => {
            proof {
                encode_utf8_decode_utf8(s@);
            }
            Ok((s.to_owned(), end))
        },
        None => Err(DecodeError::InvalidUtf8),
    }
}

/// Reads a length-prefixed byte string at `offset`; hands back the bytes and
/// the offset of the byte behind them.
pub fn read_bytes(buf: &[u8], offset: usize) -> (r: Result<(Vec<u8>, usize), DecodeError>)
    requires
        offset + 2 + MAX_FIELD_LEN <= usize::MAX,
    ensures
        match r {
            Ok((b, end)) => spec_read_bytes(buf@, offset as int) == Ok::<_, DecodeError>(
                (b@, end as int),
            ),
            Err(e) => spec_read_bytes(buf@, offset as int) == Err::<(Seq<u8>, int), _>(e),
        },
{
    let len = match read_u16(buf, offset) {
        Ok(len) => len as usize,
        Err(e) => {
            return Err(e);
        },
    };
    let end = offset + 2 + len;
    if buf.len() < end {
        return Err(DecodeError::BufferTooShort { expected: end, actual: buf.len() });
    }
    Ok((slice_to_vec(&buf[offset + 2..end]), end))
}

/// Appends a 16-bit integer, most significant byte first.
pub fn write_u16(buf: &mut Vec<u8>, v: u16)
    ensures
        final(buf)@ == old(buf)@ + spec_u16_be(v),
{
    buf.push((v / 256) as u8);
    buf.push((v % 256) as u8);
    assert(buf@ =~= old(buf)@ + spec_u16_be(v));
}

/// Appends a byte string behind its 16-bit length.
pub fn write_bytes(buf: &mut Vec<u8>, bytes: &[u8])
    requires
        bytes@.len() <= MAX_FIELD_LEN,
    ensures
        final(buf)@ == old(buf)@ + spec_bytes_wire(bytes@),
{
    write_u16(buf, bytes.len() as u16);
    buf.extend_from_slice(bytes);
    assert(buf@ =~= old(buf)@ + spec_bytes_wire(bytes@));
}

/// Appends a string behind the 16-bit length of its UTF-8 encoding.
pub fn write_string(buf: &mut Vec<u8>, s: &str)
    requires
        spec_string_fits(s@),
    ensures
        final(buf)@ == old(buf)@ + spec_string_wire(s@),
{
    write_bytes(buf, s.as_bytes());
}

} // verus!
