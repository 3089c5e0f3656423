//! Why a byte buffer could not be decoded.

use vstd::prelude::*;
use crate::text::{
    push_decimal, push_hex_byte, push_text, spec_decimal, spec_hex_byte_upper, string_of,
};

verus! {

/// The reason a decode stopped. Every decoder reports the first problem it
/// meets while scanning the buffer from left to right.
#[derive(Debug, Clone, PartialEq, Eq)]
pub enum DecodeError {
    /// A field needs the buffer to hold `expected` bytes; it holds `actual`.
    BufferTooShort { expected: usize, actual: usize },
    /// The type byte of a frame names no packet kind.
    InvalidMessageType(u8),
    /// A quality-of-service field holds a value other than 0, 1 or 2.
    InvalidQoS(u8),
    /// A return code byte is outside its enumeration.
    InvalidReturnCode(u8),
    /// A length-prefixed string field is not valid UTF-8.
    InvalidUtf8,
    /// The frame would not fit the one-byte length field of its header.
    PayloadTooLarge,
    /// A structural fault that no other variant covers.
    MalformedPacket(&'static str),
}

/// The fault of a buffer of `actual` bytes that a field needs to hold
/// `expected` bytes.
pub open spec fn spec_too_short(expected: int, actual: nat) -> DecodeError {
    DecodeError::BufferTooShort { expected: expected as usize, actual: actual as usize }
}

impl DecodeError {
    /// The fault in words. Lengths and the level are written in decimal,
    /// the other bytes as two hexadecimal digits in upper case.
    pub open spec fn spec_message(self) -> Seq<char> {
        match self {
            DecodeError::BufferTooShort { expected, actual } => "buffer too short: expected "@
                + spec_decimal(expected as nat) + ", got "@ + spec_decimal(actual as nat),
            DecodeError::InvalidMessageType(v) => "invalid message type: 0x"@
                + spec_hex_byte_upper(v),
            DecodeError::InvalidQoS(v) => "invalid QoS: "@ + spec_decimal(v as nat),
            DecodeError::InvalidReturnCode(v) => "invalid return code: 0x"@ + spec_hex_byte_upper(
                v,
            ),
            DecodeError::InvalidUtf8 => "invalid UTF-8 string"@,
            DecodeError::PayloadTooLarge => "payload exceeds maximum size"@,
            DecodeError::MalformedPacket(reason) => "malformed packet: "@ + reason@,
        }
    }

    /// The fault in words.
    pub fn message(&self) -> (text: String)
        ensures
            text@ == self.spec_message(),
    {
        let mut out: Vec<char> = Vec::new();
        match self {
            DecodeError::BufferTooShort { expected, actual } => {
                push_text(&mut out, "buffer too short: expected ");
                push_decimal(&mut out, *expected);
                push_text(&mut out, ", got ");
                push_decimal(&mut out, *actual);
            },
            DecodeError::InvalidMessageType(v) => {
                push_text(&mut out, "invalid message type: 0x");
                push_hex_byte(&mut out, *v, true);
            },
            DecodeError::InvalidQoS(v) => {
                push_text(&mut out, "invalid QoS: ");
                push_decimal(&mut out, *v as usize);
            },
            DecodeError::InvalidReturnCode(v) => {
                push_text(&mut out, "invalid return code: 0x");
                push_hex_byte(&mut out, *v, true);
            },
            DecodeError::InvalidUtf8 => {
                push_text(&mut out, "invalid UTF-8 string");
            },
            DecodeError::PayloadTooLarge => {
                push_text(&mut out, "payload exceeds maximum size");
            },
            DecodeError::MalformedPacket(reason) => {
                push_text(&mut out, "malformed packet: ");
                push_text(&mut out, reason);
            },
        }
        assert(out@ =~= self.spec_message());
        string_of(out.as_slice())
    }
}

} // verus!
