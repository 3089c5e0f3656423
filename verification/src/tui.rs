//! What the terminal front end decides: how input is read as a payload,
//! how payloads are shown, and where the log is scrolled to.

use vstd::prelude::*;
use crate::mqtt::error::DecodeError;
use crate::text::{push_decimal, push_text, spec_decimal, string_of};
use crate::tui::format::{format_for_mode, spec_format_for_mode};
use crate::tui::parse::{parse_mqtt_command, spec_parse_command};
use crate::utils::{parse_hex, parse_text_with_escapes, spec_parse_hex, spec_unescape};

pub mod app;
pub mod format;
pub mod net;
pub mod parse;

verus! {

/// How a line of input is read, and how a payload is shown.
#[derive(Debug, Clone, Copy, PartialEq, Eq, Structural)]
pub enum InputMode {
    Auto,
    Text,
    Hex,
    Mqtt,
}

impl InputMode {
    /// The label of the mode in a log line.
    pub open spec fn spec_short_label(self) -> Seq<char> {
        match self {
            InputMode::Auto => "AUTO"@,
            InputMode::Text => "TXT"@,
            InputMode::Hex => "HEX"@,
            InputMode::Mqtt => "MQTT"@,
        }
    }

    /// The label of the mode in the title of the input box; all labels are
    /// six characters wide.
    pub open spec fn spec_title_label(self) -> Seq<char> {
        match self {
            InputMode::Auto => "[AUTO]"@,
            InputMode::Text => "[TEXT]"@,
            InputMode::Hex => "[HEX] "@,
            InputMode::Mqtt => "[MQTT]"@,
        }
    }

    /// The mode that follows this one when the user cycles through them.
    pub open spec fn spec_next(self) -> InputMode {
        match self {
            InputMode::Auto => InputMode::Text,
            InputMode::Text => InputMode::Hex,
            InputMode::Hex => InputMode::Mqtt,
            InputMode::Mqtt => InputMode::Auto,
        }
    }

    /// The label of the mode in a log line.
    pub fn short_label(self) -> (label: &'static str)
        ensures
            label@ == self.spec_short_label(),
    {
        match self {
            InputMode::Auto => "AUTO",
            InputMode::Text => "TXT",
            InputMode::Hex => "HEX",
            InputMode::Mqtt => "MQTT",
        }
    }

    /// The label of the mode in the title of the input box.
    pub fn title_label(self) -> (label: &'static str)
        ensures
            label@ == self.spec_title_label(),
    {
        match self {
            InputMode::Auto => "[AUTO]",
            InputMode::Text => "[TEXT]",
            InputMode::Hex => "[HEX] ",
            InputMode::Mqtt => "[MQTT]",
        }
    }

    /// The mode that follows this one when the user cycles through them.
    pub fn cycle_mode(self) -> (next: InputMode)
        ensures
            next == self.spec_next(),
    {
        match self {
            InputMode::Auto => InputMode::Text,
            InputMode::Text => InputMode::Hex,
            InputMode::Hex => InputMode::Mqtt,
            InputMode::Mqtt => InputMode::Auto,
        }
    }
}

/// Hands out the sequence identifier for the next frame and moves the
/// counter on; after 65535 it starts again at 0.
pub fn next_msg_id(counter: &mut u16) -> (id: u16)
    ensures
        id == *old(counter),
        *final(counter) == (if *old(counter) == u16::MAX {
            0u16
        } else {
            (*old(counter) + 1) as u16
        }),
{
    let id = *counter;
    *counter = if id == u16::MAX {
        0
    } else {
        id + 1
    };
    id
}

/// The bytes of a frame named by a command, or why there are none: the
/// fault of the command, or that the frame is too large.
pub open spec fn spec_command_bytes(input: Seq<char>, msg_id: u16) -> Result<Seq<u8>, Seq<char>> {
    match spec_parse_command(input, msg_id) {
        Err(e) => Err(e),
        Ok(frame) => if frame.fits() {
            Ok(frame.wire())
        } else {
            Err(DecodeError::PayloadTooLarge.spec_message())
        },
    }
}

/// The payload that a line of input stands for in the given mode, and the
/// mode under which it was read. In `Auto` the line is read as a command
/// if it is one, else as hexadecimal digits if it is that, else as text
/// with escapes; a command whose frame is too large is a fault in `Auto`
/// too.
pub open spec fn spec_parse_payload(mode: InputMode, input: Seq<char>, msg_id: u16) -> Result<
    (InputMode, Seq<u8>),
    Seq<char>,
> {
    match mode {
        InputMode::Auto => if spec_parse_command(input, msg_id) is Ok {
            match spec_command_bytes(input, msg_id) {
                Ok(bytes) => Ok((InputMode::Mqtt, bytes)),
                Err(e) => Err(e),
            }
        } else {
            match spec_parse_hex(input) {
                Ok(bytes) => Ok((InputMode::Hex, bytes)),
                Err(_) => Ok((InputMode::Text, spec_unescape(input))),
            }
        },
        InputMode::Mqtt => match spec_command_bytes(input, msg_id) {
            Ok(bytes) => Ok((InputMode::Mqtt, bytes)),
            Err(e) => Err(e),
        },
        InputMode::Hex => match spec_parse_hex(input) {
            Ok(bytes) => Ok((InputMode::Hex, bytes)),
            Err(e) => Err(e),
        },
        InputMode::Text => Ok((InputMode::Text, spec_unescape(input))),
    }
}

/// The outcome of reading a line, with the bytes and the message as
/// sequences.
pub open spec fn spec_payload_outcome(r: Result<(InputMode, Vec<u8>), String>) -> Result<
    (InputMode, Seq<u8>),
    Seq<char>,
> {
    match r {
        Ok((mode, bytes)) => Ok((mode, bytes@)),
        Err(message) => Err(message@),
    }
}

/// The bytes of the frame that a command names under `msg_id`.
pub fn command_bytes(input: &str, msg_id: u16) -> (r: Result<Vec<u8>, String>)
    ensures
        match r {
            Ok(bytes) => spec_command_bytes(input@, msg_id) == Ok::<_, Seq<char>>(bytes@),
            Err(e) => spec_command_bytes(input@, msg_id) == Err::<Seq<u8>, _>(e@),
        },
{
    match parse_mqtt_command(input, msg_id) {
        Err(e) => Err(e),
        Ok(frame) => match frame.try_encode() {
            Ok(bytes) => Ok(bytes),
            Err(e) => Err(e.message()),
        },
    }
}

/// Reads a line of input as a payload in the given mode. A frame that is
/// built takes `msg_id` as its sequence identifier.
pub fn parse_payload(mode: InputMode, input: &str, msg_id: u16) -> (r: Result<
    (InputMode, Vec<u8>),
    String,
>)
    ensures
        spec_payload_outcome(r) == spec_parse_payload(mode, input@, msg_id),
{
    match mode {
        InputMode::Auto => {
            match parse_mqtt_command(input, msg_id) {
                Ok(frame) => {
                    return match frame.try_encode() {
                        Ok(bytes) => Ok((InputMode::Mqtt, bytes)),
                        Err(e) => Err(e.message()),
                    };
                },
                Err(_) => {},
            }
            if let Ok(hex) = parse_hex(input) {
                return Ok((InputMode::Hex, hex));
            }
            Ok((InputMode::Text, parse_text_with_escapes(input)))
        },
        InputMode::Mqtt => match command_bytes(input, msg_id) {
            Ok(bytes) => Ok((InputMode::Mqtt, bytes)),
            Err(e) => Err(e),
        },
        InputMode::Hex => match parse_hex(input) {
            Ok(hex) => Ok((InputMode::Hex, hex)),
            Err(e) => Err(e),
        },
        InputMode::Text => Ok((InputMode::Text, parse_text_with_escapes(input))),
    }
}

/// The number of log lines that a log area of the given height shows: the
/// height without its two border rows.
pub open spec fn spec_visible_rows(height: u16) -> nat {
    if height >= 2 {
        (height - 2) as nat
    } else {
        0
    }
}

/// Where the log is scrolled to after a line was added to make `entries`
/// lines: so that the last line shows, if not all lines fit; else where it
/// was.
pub open spec fn spec_follow_tail(offset: nat, entries: nat, height: u16) -> nat {
    if entries > spec_visible_rows(height) {
        (entries - spec_visible_rows(height)) as nat
    } else {
        offset
    }
}

/// Where the log is scrolled to after a move by `delta` lines: up by no
/// more than to the first line, down by no more than to where the last
/// line shows.
pub open spec fn spec_scrolled(offset: nat, delta: i16, entries: nat, height: u16) -> nat {
    let max_scroll: int = if entries > spec_visible_rows(height) {
        entries - spec_visible_rows(height)
    } else {
        0
    };
    if delta < 0 {
        if offset + delta > 0 {
            (offset + delta) as nat
        } else {
            0
        }
    } else if offset + delta < max_scroll {
        (offset + delta) as nat
    } else {
        max_scroll as nat
    }
}

/// The number of log lines that a log area of the given height shows.
pub fn visible_rows(height: u16) -> (rows: usize)
    ensures
        rows == spec_visible_rows(height),
{
    if height >= 2 {
        (height - 2) as usize
    } else {
        0
    }
}

/// Where the log is scrolled to after a line was added.
pub fn follow_tail(offset: usize, entries: usize, height: u16) -> (next: usize)
    ensures
        next == spec_follow_tail(offset as nat, entries as nat, height),
{
    let visible = visible_rows(height);
    if entries > visible {
        entries - visible
    } else {
        offset
    }
}

/// Where the log is scrolled to after a move by `delta` lines.
pub fn scroll(offset: usize, delta: i16, entries: usize, height: u16) -> (next: usize)
    ensures
        next == spec_scrolled(offset as nat, delta, entries as nat, height),
{
    let visible = visible_rows(height);
    let max_scroll = if entries > visible {
        entries - visible
    } else {
        0
    };
    if delta < 0 {
        let up = (-(delta as i32)) as usize;
        if offset > up {
            offset - up
        } else {
            0
        }
    } else {
        let down = delta as usize;
        if offset < max_scroll && down < max_scroll - offset {
            offset + down
        } else {
            max_scroll
        }
    }
}

/// The log line for a payload that was sent: the mode it was read in, the
/// number of bytes that went out, and the payload as that mode shows it.
pub open spec fn spec_sent_line(mode: InputMode, sent: nat, data: Seq<u8>) -> Seq<char> {
    "→ ["@ + mode.spec_short_label() + "] "@ + spec_decimal(sent) + " bytes: "@
        + spec_format_for_mode(mode, data)
}

/// The log line for a payload that came in: its length, and the payload as
/// the current mode shows it.
pub open spec fn spec_received_line(mode: InputMode, data: Seq<u8>) -> Seq<char> {
    "← "@ + spec_decimal(data.len()) + " bytes: "@ + spec_format_for_mode(mode, data)
}

/// The log line for a fault.
pub open spec fn spec_error_line(message: Seq<char>) -> Seq<char> {
    "✗ "@ + message
}

/// The log line for a payload that was sent.
pub fn sent_line(mode: InputMode, sent: usize, data: &[u8]) -> (line: String)
    ensures
        line@ == spec_sent_line(mode, sent as nat, data@),
{
    let mut out: Vec<char> = Vec::new();
    push_text(&mut out, "→ [");
    push_text(&mut out, mode.short_label());
    push_text(&mut out, "] ");
    push_decimal(&mut out, sent);
    push_text(&mut out, " bytes: ");
    push_text(&mut out, format_for_mode(mode, data).as_str());
    assert(out@ =~= spec_sent_line(mode, sent as nat, data@));
    string_of(out.as_slice())
}

/// The log line for a payload that came in.
pub fn received_line(mode: InputMode, data: &[u8]) -> (line: String)
    ensures
        line@ == spec_received_line(mode, data@),
{
    let mut out: Vec<char> = Vec::new();
    push_text(&mut out, "← ");
    push_decimal(&mut out, data.len());
    push_text(&mut out, " bytes: ");
    push_text(&mut out, format_for_mode(mode, data).as_str());
    assert(out@ =~= spec_received_line(mode, data@));
    string_of(out.as_slice())
}

/// The log line for a fault.
pub fn error_line(message: &str) -> (line: String)
    ensures
        line@ == spec_error_line(message@),
{
    let mut out: Vec<char> = Vec::new();
    push_text(&mut out, "✗ ");
    push_text(&mut out, message);
    assert(out@ =~= spec_error_line(message@));
    string_of(out.as_slice())
}

} // verus!
