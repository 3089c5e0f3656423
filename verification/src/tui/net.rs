//! What the network side decides between its calls to the socket: what to
//! do with a command, and what to report of each outcome.

use vstd::prelude::*;
use crate::text::{push_text, string_of};
use crate::tui::{next_msg_id, parse_payload, spec_parse_payload, InputMode};

verus! {

/// What the front end asks of the network side.
#[derive(Debug, Clone, PartialEq, Eq)]
pub enum NetCommand {
    /// Read this line in this mode and send the payload.
    Send { mode: InputMode, input: String },
    /// Stop.
    Shutdown,
}

/// What the network side reports to the front end.
#[derive(Debug, Clone, PartialEq, Eq)]
pub enum NetEvent {
    /// `sent` bytes of `data` went out; the line was read in `mode`.
    Sent { mode: InputMode, data: Vec<u8>, sent: usize },
    /// A datagram came in.
    Received(Vec<u8>),
    /// Something went wrong.
    Error(String),
}

/// What a [`NetEvent`] holds, with its bytes and text as sequences.
pub ghost enum NetEventView {
    Sent { mode: InputMode, data: Seq<u8>, sent: nat },
    Received(Seq<u8>),
    Error(Seq<char>),
}

impl View for NetEvent {
    type V = NetEventView;

    open spec fn view(&self) -> NetEventView {
        match self {
            NetEvent::Sent { mode, data, sent } => NetEventView::Sent {
                mode: *mode,
                data: data@,
                sent: *sent as nat,
            },
            NetEvent::Received(data) => NetEventView::Received(data@),
            NetEvent::Error(message) => NetEventView::Error(message@),
        }
    }
}

/// What the network side does with a command.
#[derive(Debug, Clone, PartialEq, Eq)]
pub enum NetStep {
    /// Leave the loop.
    Stop,
    /// Send `data`, which was read in `mode`.
    Transmit { mode: InputMode, data: Vec<u8> },
    /// Send nothing and report the fault.
    Report(String),
}

/// What a [`NetStep`] holds, with its bytes and text as sequences.
pub ghost enum NetStepView {
    Stop,
    Transmit { mode: InputMode, data: Seq<u8> },
    Report(Seq<char>),
}

impl View for NetStep {
    type V = NetStepView;

    open spec fn view(&self) -> NetStepView {
        match self {
            NetStep::Stop => NetStepView::Stop,
            NetStep::Transmit { mode, data } => NetStepView::Transmit { mode: *mode, data: data@ },
            NetStep::Report(message) => NetStepView::Report(message@),
        }
    }
}

/// The step that a line of input leads to when the next sequence
/// identifier is `counter`: its payload is sent under the mode it was read
/// in, or its fault is reported.
pub open spec fn spec_send_step(mode: InputMode, input: Seq<char>, counter: u16) -> NetStepView {
    match spec_parse_payload(mode, input, counter) {
        Ok((read_as, data)) => NetStepView::Transmit { mode: read_as, data },
        Err(message) => NetStepView::Report(message),
    }
}

/// Whether a line of input uses up a sequence identifier: it does when it
/// was read as a command and its frame was built.
pub open spec fn spec_uses_msg_id(mode: InputMode, input: Seq<char>, counter: u16) -> bool {
    spec_parse_payload(mode, input, counter) matches Ok((read_as, _)) && read_as
        == InputMode::Mqtt
}

/// The counter after one sequence identifier was handed out.
pub open spec fn spec_counter_after(counter: u16) -> u16 {
    if counter == u16::MAX {
        0
    } else {
        (counter + 1) as u16
    }
}

/// Decides what to do with a command. A frame takes the sequence
/// identifier that `counter` holds, and the counter moves on only then.
pub fn on_command(command: NetCommand, counter: &mut u16) -> (step: NetStep)
    ensures
        match command {
            NetCommand::Shutdown => step@ == NetStepView::Stop && *final(counter) == *old(counter),
            NetCommand::Send { mode, input } => {
                &&& step@ == spec_send_step(mode, input@, *old(counter))
                &&& *final(counter) == (if spec_uses_msg_id(mode, input@, *old(counter)) {
                    spec_counter_after(*old(counter))
                } else {
                    *old(counter)
                })
            },
        },
{
    match command {
        NetCommand::Shutdown => NetStep::Stop,
        NetCommand::Send { mode, input } => match parse_payload(mode, input.as_str(), *counter) {
            Ok((read_as, data)) => {
                if read_as == InputMode::Mqtt {
                    next_msg_id(counter);
                }
                NetStep::Transmit { mode: read_as, data }
            },
            Err(message) => NetStep::Report(message),
        },
    }
}

/// A text in front of the words of a fault of the operating system.
fn fault(text: &str, reason: &str) -> (event: NetEvent)
    ensures
        event@ == NetEventView::Error(text@ + reason@),
{
    let mut message: Vec<char> = Vec::new();
    push_text(&mut message, text);
    push_text(&mut message, reason);
    assert(message@ =~= text@ + reason@);
    NetEvent::Error(string_of(message.as_slice()))
}

/// How a send ended: with the number of bytes that went out, or with the
/// words of the fault.
pub open spec fn spec_send_event(
    mode: InputMode,
    data: Seq<u8>,
    outcome: Result<usize, Seq<char>>,
) -> NetEventView {
    match outcome {
        Ok(sent) => NetEventView::Sent { mode, data, sent: sent as nat },
        Err(reason) => NetEventView::Error("Send failed: "@ + reason),
    }
}

/// The report of how a send ended.
pub fn on_send_result(mode: InputMode, data: Vec<u8>, outcome: Result<usize, String>) -> (event:
    NetEvent)
    ensures
        event@ == spec_send_event(
            mode,
            data@,
            match outcome {
                Ok(sent) => Ok(sent),
                Err(reason) => Err(reason@),
            },
        ),
{
    match outcome {
        Ok(sent) => NetEvent::Sent { mode, data, sent },
        Err(reason) => fault("Send failed: ", reason.as_str()),
    }
}

/// How an attempt to receive ended.
#[derive(Debug, Clone, PartialEq, Eq)]
pub enum RecvOutcome {
    /// A datagram came in.
    Data(Vec<u8>),
    /// Nothing was waiting.
    WouldBlock,
    /// The peer's host answered that nobody listens on the port.
    Refused,
    /// Any other fault, in words.
    Failed(String),
}

/// What is reported of an attempt to receive; nothing if nothing was
/// waiting.
pub open spec fn spec_recv_event(outcome: RecvOutcome) -> Option<NetEventView> {
    match outcome {
        RecvOutcome::Data(data) => Some(NetEventView::Received(data@)),
        RecvOutcome::WouldBlock => None,
        RecvOutcome::Refused => Some(
            NetEventView::Error("ICMP: Connection refused (port unreachable)"@),
        ),
        RecvOutcome::Failed(reason) => Some(NetEventView::Error("Receive failed: "@ + reason@)),
    }
}

/// The report of an attempt to receive, if there is anything to report.
pub fn on_recv_result(outcome: RecvOutcome) -> (event: Option<NetEvent>)
    ensures
        match event {
            Some(e) => spec_recv_event(outcome) == Some(e@),
            None => spec_recv_event(outcome) is None,
        },
{
    match outcome {
        RecvOutcome::Data(data) => Some(NetEvent::Received(data)),
        RecvOutcome::WouldBlock => None,
        RecvOutcome::Refused => Some(
            NetEvent::Error("ICMP: Connection refused (port unreachable)".to_owned()),
        ),
        RecvOutcome::Failed(reason) => Some(fault("Receive failed: ", reason.as_str())),
    }
}

/// The step of setting up the socket that failed.
#[derive(Debug, Clone, Copy, PartialEq, Eq, Structural)]
pub enum Setup {
    Bind,
    Connect,
    Nonblocking,
}

/// What is reported when setting up the socket fails.
pub open spec fn spec_setup_fault(step: Setup, reason: Seq<char>) -> Seq<char> {
    match step {
        Setup::Bind => "Bind failed: "@ + reason,
        Setup::Connect => "Connect failed: "@ + reason,
        Setup::Nonblocking => "Failed to set nonblocking: "@ + reason,
    }
}

/// The report of a failure to set up the socket.
pub fn on_setup_failed(step: Setup, reason: &str) -> (event: NetEvent)
    ensures
        event@ == NetEventView::Error(spec_setup_fault(step, reason@)),
{
    match step {
        Setup::Bind => fault("Bind failed: ", reason),
        Setup::Connect => fault("Connect failed: ", reason),
        Setup::Nonblocking => fault("Failed to set nonblocking: ", reason),
    }
}

} // verus!
