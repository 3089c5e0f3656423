//! The state of the terminal front end and what each event does to it. The
//! front end itself only draws this state and hands over the events.

use vstd::prelude::*;
use crate::text::{push_text, string_of};
use crate::tui::net::{NetEvent, NetEventView};
use crate::tui::{
    error_line, follow_tail, received_line, scroll, sent_line, spec_error_line, spec_follow_tail,
    spec_received_line, spec_scrolled, spec_sent_line, spec_visible_rows, visible_rows, InputMode,
};

verus! {

/// `String::pop`: the last character leaves the string and is handed
/// back; an empty string stays as it is and nothing is handed back.
pub assume_specification[ String::pop ](s: &mut String) -> (c: Option<char>)
    ensures
        old(s)@.len() > 0 ==> c == Some(old(s)@.last()) && final(s)@ == old(s)@.drop_last(),
        old(s)@.len() == 0 ==> c is None && final(s)@ == old(s)@,
;

/// What a log line tells of; the front end picks its colour by it.
#[derive(Debug, Clone, Copy, PartialEq, Eq, Structural)]
pub enum LineKind {
    /// A word from the program itself.
    Notice,
    /// A payload that went out.
    Sent,
    /// A payload that came in.
    Received,
    /// Something that went wrong.
    Fault,
}

/// What a [`LogEntry`] holds, with its text and bytes as sequences.
pub ghost struct EntryView {
    pub display: Seq<char>,
    pub kind: LineKind,
    pub payload: Option<(InputMode, Seq<u8>)>,
}

/// One line of the log, with the payload it tells of, if any, and the mode
/// that payload belongs to.
#[derive(Debug, Clone, PartialEq, Eq)]
pub struct LogEntry {
    pub display: String,
    pub kind: LineKind,
    pub payload: Option<(InputMode, Vec<u8>)>,
}

impl View for LogEntry {
    type V = EntryView;

    open spec fn view(&self) -> EntryView {
        EntryView {
            display: self.display@,
            kind: self.kind,
            payload: match self.payload {
                Some((mode, data)) => Some((mode, data@)),
                None => None,
            },
        }
    }
}

/// A key or a turn of the mouse wheel, as far as the front end tells them
/// apart.
#[derive(Debug, Clone, Copy, PartialEq, Eq, Structural)]
pub enum Key {
    Esc,
    Tab,
    Enter,
    Backspace,
    Char(char),
    ScrollUp,
    ScrollDown,
    Other,
}

/// What an [`App`] holds, with its texts and its log as sequences.
pub ghost struct AppView {
    pub input: Seq<char>,
    pub input_mode: InputMode,
    pub log: Seq<EntryView>,
    pub log_height: u16,
    pub scroll_offset: nat,
    pub running: bool,
}

/// The state of the front end: the line being typed, the mode, the log and
/// where it is scrolled to, and whether the program goes on.
#[derive(Debug, Clone, PartialEq, Eq)]
pub struct App {
    pub input: String,
    pub input_mode: InputMode,
    pub log: Vec<LogEntry>,
    /// The height of the log area when it was last drawn, borders included.
    pub log_height: u16,
    pub scroll_offset: usize,
    pub running: bool,
}

impl View for App {
    type V = AppView;

    open spec fn view(&self) -> AppView {
        AppView {
            input: self.input@,
            input_mode: self.input_mode,
            log: self.log@.map_values(|e: LogEntry| e@),
            log_height: self.log_height,
            scroll_offset: self.scroll_offset as nat,
            running: self.running,
        }
    }
}

/// The line that greets the user.
pub const READY: &'static str = "Ready. Tab=mode, Enter=send, Esc=quit";

/// How many lines one turn of the mouse wheel moves the log.
pub const WHEEL_STEP: i16 = 3;

impl AppView {
    /// The state at the start: nothing typed, mode `Auto`, the greeting as
    /// the only log line.
    pub open spec fn start() -> AppView {
        AppView {
            input: Seq::empty(),
            input_mode: InputMode::Auto,
            log: seq![EntryView { display: READY@, kind: LineKind::Notice, payload: None }],
            log_height: 0,
            scroll_offset: 0,
            running: true,
        }
    }

    /// The state after a line was added to the log: the log is scrolled
    /// so that the line shows, if not all lines fit.
    pub open spec fn logged(self, entry: EntryView) -> AppView {
        AppView {
            log: self.log.push(entry),
            scroll_offset: spec_follow_tail(
                self.scroll_offset,
                self.log.len() + 1,
                self.log_height,
            ),
            ..self
        }
    }

    /// The state after a fault of the front end itself was logged: what was
    /// typed is dropped.
    pub open spec fn fault_logged(self, message: Seq<char>) -> AppView {
        AppView {
            input: Seq::empty(),
            ..self.logged(
                EntryView {
                    display: spec_error_line(message),
                    kind: LineKind::Fault,
                    payload: None,
                },
            )
        }
    }

    /// The state after the network side could not be handed a line.
    pub open spec fn send_failed(self, reason: Seq<char>) -> AppView {
        AppView {
            running: false,
            ..self.fault_logged("Network thread unavailable: "@ + reason)
        }
    }

    /// The state after the network side has gone.
    pub open spec fn disconnected(self) -> AppView {
        AppView { running: false, ..self.fault_logged("Network thread disconnected"@) }
    }

    /// The state after `sent` bytes of `data` went out, read in `mode`.
    pub open spec fn sent(self, mode: InputMode, data: Seq<u8>, sent: nat) -> AppView {
        self.logged(
            EntryView {
                display: spec_sent_line(mode, sent, data),
                kind: LineKind::Sent,
                payload: Some((mode, data)),
            },
        )
    }

    /// The state after `data` came in: it is shown in the current mode.
    pub open spec fn received(self, data: Seq<u8>) -> AppView {
        self.logged(
            EntryView {
                display: spec_received_line(self.input_mode, data),
                kind: LineKind::Received,
                payload: Some((self.input_mode, data)),
            },
        )
    }

    /// The state after the network side reported a fault.
    pub open spec fn net_fault(self, message: Seq<char>) -> AppView {
        self.logged(
            EntryView { display: spec_error_line(message), kind: LineKind::Fault, payload: None },
        )
    }

    /// The state after a report of the network side was logged.
    pub open spec fn after_event(self, event: NetEventView) -> AppView {
        match event {
            NetEventView::Sent { mode, data, sent } => self.sent(mode, data, sent),
            NetEventView::Received(data) => self.received(data),
            NetEventView::Error(message) => self.net_fault(message),
        }
    }

    /// The state after the log was moved by `delta` lines.
    pub open spec fn scrolled(self, delta: i16) -> AppView {
        AppView {
            scroll_offset: spec_scrolled(
                self.scroll_offset,
                delta,
                self.log.len(),
                self.log_height,
            ),
            ..self
        }
    }

    /// The line to hand to the network side when the user sends: what was
    /// typed, with the mode, unless nothing was typed.
    pub open spec fn to_send(self) -> Option<(InputMode, Seq<char>)> {
        if self.input.len() == 0 {
            None
        } else {
            Some((self.input_mode, self.input))
        }
    }

    /// The state after a key: `Esc` ends the program, `Tab` moves to the
    /// next mode, `Enter` takes what was typed away to be sent, `Backspace`
    /// drops the last character, a character is added to what was typed, and
    /// the wheel moves the log by three lines.
    pub open spec fn after_key(self, key: Key) -> AppView {
        match key {
            Key::Esc => AppView { running: false, ..self },
            Key::Tab => AppView { input_mode: self.input_mode.spec_next(), ..self },
            Key::Enter => AppView { input: Seq::empty(), ..self },
            Key::Backspace => AppView {
                input: if self.input.len() > 0 {
                    self.input.drop_last()
                } else {
                    self.input
                },
                ..self
            },
            Key::Char(c) => AppView { input: self.input.push(c), ..self },
            Key::ScrollUp => self.scrolled((-WHEEL_STEP) as i16),
            Key::ScrollDown => self.scrolled(WHEEL_STEP),
            Key::Other => self,
        }
    }

    /// The log lines that show: from where the log is scrolled to, as many
    /// as the log area has rows, as far as there are lines.
    pub open spec fn visible(self) -> (int, int) {
        let from = if self.scroll_offset < self.log.len() {
            self.scroll_offset as int
        } else {
            self.log.len() as int
        };
        let to = if from + spec_visible_rows(self.log_height) < self.log.len() {
            from + spec_visible_rows(self.log_height)
        } else {
            self.log.len() as int
        };
        (from, to)
    }
}

impl App {
    /// The state at the start.
    pub fn new() -> (app: App)
        ensures
            app@ == AppView::start(),
    {
        let mut log: Vec<LogEntry> = Vec::new();
        log.push(LogEntry { display: READY.to_owned(), kind: LineKind::Notice, payload: None });
        let app = App {
            input: String::new(),
            input_mode: InputMode::Auto,
            log,
            log_height: 0,
            scroll_offset: 0,
            running: true,
        };
        assert(app@.log =~= AppView::start().log);
        app
    }

    /// Adds a line to the log and keeps the last line in sight.
    pub fn log_msg(
        &mut self,
        display: String,
        kind: LineKind,
        payload: Option<(InputMode, Vec<u8>)>,
    )
        ensures
            final(self)@ == old(self)@.logged(
                (LogEntry { display, kind, payload })@,
            ),
    {
        let entry = LogEntry { display, kind, payload };
        let ghost before = self@.log;
        self.log.push(entry);
        assert(self@.log =~= before.push(entry@));
        self.scroll_offset = follow_tail(self.scroll_offset, self.log.len(), self.log_height);
    }

    /// Logs a fault of the front end itself and drops what was typed.
    pub fn log_error(&mut self, message: &str)
        ensures
            final(self)@ == old(self)@.fault_logged(message@),
    {
        self.log_msg(error_line(message), LineKind::Fault, None);
        self.input = String::new();
    }

    /// Takes what was typed away to be sent, with the mode; nothing is
    /// handed over if nothing was typed.
    pub fn send(&mut self) -> (line: Option<(InputMode, String)>)
        ensures
            final(self)@ == (AppView { input: Seq::empty(), ..old(self)@ }),
            match line {
                Some((mode, input)) => old(self)@.to_send() == Some((mode, input@)),
                None => old(self)@.to_send() is None,
            },
    {
        let mut input = String::new();
        core::mem::swap(&mut self.input, &mut input);
        if input.as_str().is_empty() {
            return None;
        }
        Some((self.input_mode, input))
    }

    /// The network side could not be handed a line: that is logged, and
    /// the program ends.
    pub fn on_send_failed(&mut self, reason: &str)
        ensures
            final(self)@ == old(self)@.send_failed(reason@),
    {
        let mut message: Vec<char> = Vec::new();
        push_text(&mut message, "Network thread unavailable: ");
        push_text(&mut message, reason);
        assert(message@ =~= "Network thread unavailable: "@ + reason@);
        self.log_error(string_of(message.as_slice()).as_str());
        self.running = false;
    }

    /// The network side has gone: that is logged, and the program ends.
    pub fn on_disconnected(&mut self)
        ensures
            final(self)@ == old(self)@.disconnected(),
    {
        self.log_error("Network thread disconnected");
        self.running = false;
    }

    /// Logs a payload that went out.
    pub fn on_sent(&mut self, mode: InputMode, data: Vec<u8>, n: usize)
        ensures
            final(self)@ == old(self)@.sent(mode, data@, n as nat),
    {
        let line = sent_line(mode, n, data.as_slice());
        self.log_msg(line, LineKind::Sent, Some((mode, data)));
    }

    /// Logs a payload that came in, shown in the current mode.
    pub fn on_received(&mut self, data: Vec<u8>)
        ensures
            final(self)@ == old(self)@.received(data@),
    {
        let mode = self.input_mode;
        let line = received_line(mode, data.as_slice());
        self.log_msg(line, LineKind::Received, Some((mode, data)));
    }

    /// Logs a fault that the network side reported.
    pub fn on_net_fault(&mut self, message: &str)
        ensures
            final(self)@ == old(self)@.net_fault(message@),
    {
        self.log_msg(error_line(message), LineKind::Fault, None);
    }

    /// Logs a report of the network side.
    pub fn on_net_event(&mut self, event: NetEvent)
        ensures
            final(self)@ == old(self)@.after_event(event@),
    {
        match event {
            NetEvent::Sent { mode, data, sent } => self.on_sent(mode, data, sent),
            NetEvent::Received(data) => self.on_received(data),
            NetEvent::Error(message) => self.on_net_fault(message.as_str()),
        }
    }

    /// Moves to the next mode.
    pub fn cycle_mode(&mut self)
        ensures
            final(self)@ == (AppView {
                input_mode: old(self)@.input_mode.spec_next(),
                ..old(self)@
            }),
    {
        self.input_mode = self.input_mode.cycle_mode();
    }

    /// Moves the log by `delta` lines, within the log.
    pub fn scroll(&mut self, delta: i16)
        ensures
            final(self)@ == old(self)@.scrolled(delta),
    {
        self.scroll_offset = scroll(self.scroll_offset, delta, self.log.len(), self.log_height);
    }

    /// Takes a key; hands back the line to send, if the key was `Enter` and
    /// something was typed.
    pub fn on_key(&mut self, key: Key) -> (line: Option<(InputMode, String)>)
        ensures
            final(self)@ == old(self)@.after_key(key),
            match line {
                Some((mode, input)) => key == Key::Enter && old(self)@.to_send() == Some(
                    (mode, input@),
                ),
                None => key != Key::Enter || old(self)@.to_send() is None,
            },
    {
        match key {
            Key::Esc => {
                self.running = false;
                None
            },
            Key::Tab => {
                self.cycle_mode();
                None
            },
            Key::Enter => self.send(),
            Key::Backspace => {
                self.input.pop();
                None
            },
            Key::Char(c) => {
                self.input.push(c);
                None
            },
            Key::ScrollUp => {
                self.scroll(-WHEEL_STEP);
                None
            },
            Key::ScrollDown => {
                self.scroll(WHEEL_STEP);
                None
            },
            Key::Other => None,
        }
    }

    /// The range of log lines that show.
    pub fn visible(&self) -> (range: (usize, usize))
        ensures
            (range.0 as int, range.1 as int) == self@.visible(),
            range.0 <= range.1 <= self.log@.len(),
    {
        let len = self.log.len();
        let from = if self.scroll_offset < len {
            self.scroll_offset
        } else {
            len
        };
        let rows = visible_rows(self.log_height);
        let to = if rows < len - from {
            from + rows
        } else {
            len
        };
        (from, to)
    }
}

} // verus!
