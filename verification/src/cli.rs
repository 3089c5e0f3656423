//! The line-by-line front end: what each line that the user types asks
//! for, and what is printed when it is done.

use vstd::prelude::*;
use vstd::string::StrSliceExecFns;
use vstd::utf8::encode_utf8;
use crate::text::{
    chars_of, push_decimal, push_text, same_text, spec_decimal, spec_split_once, spec_trim,
    split_once, string_of, text_then, trim,
};
use crate::utils::{parse_hex, spec_parse_hex};

verus! {

/// What a line asks for.
#[derive(Debug, Clone, PartialEq, Eq)]
pub enum CliAction {
    /// Nothing: the line is empty.
    Skip,
    /// Leave the program.
    Quit,
    /// Send these bytes.
    Send(Vec<u8>),
    /// Send what the file of this name holds.
    SendFile(String),
    /// Print this complaint.
    Complain(String),
}

/// What a [`CliAction`] holds, with its bytes and texts as sequences.
pub ghost enum CliActionView {
    Skip,
    Quit,
    Send(Seq<u8>),
    SendFile(Seq<char>),
    Complain(Seq<char>),
}

impl View for CliAction {
    type V = CliActionView;

    open spec fn view(&self) -> CliActionView {
        match self {
            CliAction::Skip => CliActionView::Skip,
            CliAction::Quit => CliActionView::Quit,
            CliAction::Send(data) => CliActionView::Send(data@),
            CliAction::SendFile(path) => CliActionView::SendFile(path@),
            CliAction::Complain(message) => CliActionView::Complain(message@),
        }
    }
}

/// What a line asks for. White space around the line does not count. The
/// command is what stands in front of the first space: `text` sends the
/// rest as it is, `hex` sends the bytes that the rest spells, `file` sends
/// the file that the rest names, `quit` and `exit` leave.
pub open spec fn spec_cli_action(line: Seq<char>) -> CliActionView {
    let line = spec_trim(line);
    if line.len() == 0 {
        CliActionView::Skip
    } else {
        let (command, arg) = match spec_split_once(line, ' ') {
            Some((command, arg)) => (command, arg),
            None => (line, Seq::empty()),
        };
        if command == "text"@ {
            CliActionView::Send(encode_utf8(arg))
        } else if command == "hex"@ {
            match spec_parse_hex(arg) {
                Ok(data) => CliActionView::Send(data),
                Err(e) => CliActionView::Complain("Invalid hex: "@ + e),
            }
        } else if command == "file"@ {
            CliActionView::SendFile(arg)
        } else if command == "quit"@ || command == "exit"@ {
            CliActionView::Quit
        } else {
            CliActionView::Complain("Unknown command: "@ + command)
        }
    }
}

/// Reads a line and says what it asks for.
pub fn cli_action(line: &str) -> (action: CliAction)
    ensures
        action@ == spec_cli_action(line@),
{
    let chars = chars_of(line);
    let line = trim(chars.as_slice());
    if line.len() == 0 {
        return CliAction::Skip;
    }
    let (command, arg): (&[char], &[char]) = match split_once(line, ' ') {
        Some((command, arg)) => (command, arg),
        None => {
            let nothing = &line[0..0];
            assert(nothing@ =~= Seq::<char>::empty());
            (line, nothing)
        },
    };
    if same_text(command, "text") {
        CliAction::Send(string_of(arg).as_str().as_bytes_vec())
    } else if same_text(command, "hex") {
        match parse_hex(string_of(arg).as_str()) {
            Ok(data) => CliAction::Send(data),
            Err(e) => {
                let reason = chars_of(e.as_str());
                CliAction::Complain(text_then("Invalid hex: ", reason.as_slice()))
            },
        }
    } else if same_text(command, "file") {
        CliAction::SendFile(string_of(arg))
    } else if same_text(command, "quit") || same_text(command, "exit") {
        CliAction::Quit
    } else {
        CliAction::Complain(text_then("Unknown command: ", command))
    }
}

/// What is printed when bytes went out.
pub open spec fn spec_sent_report(sent: nat, from_file: bool) -> Seq<char> {
    "Sent "@ + spec_decimal(sent) + (if from_file {
        " bytes from file"@
    } else {
        " bytes"@
    })
}

/// What is printed when bytes went out.
pub fn sent_report(sent: usize, from_file: bool) -> (text: String)
    ensures
        text@ == spec_sent_report(sent as nat, from_file),
{
    let mut out: Vec<char> = Vec::new();
    push_text(&mut out, "Sent ");
    push_decimal(&mut out, sent);
    push_text(
        &mut out,
        if from_file {
            " bytes from file"
        } else {
            " bytes"
        },
    );
    assert(out@ =~= spec_sent_report(sent as nat, from_file));
    string_of(out.as_slice())
}

/// What is printed when a file could not be read.
pub fn file_error(reason: &str) -> (text: String)
    ensures
        text@ == "File error: "@ + reason@,
{
    let reason = chars_of(reason);
    text_then("File error: ", reason.as_slice())
}

} // verus!
