use udd::cli::{cli_action, file_error, sent_report, CliAction};
use udd::tui::app::{App, Key, LineKind, LogEntry};
use udd::tui::net::{
    on_command, on_recv_result, on_send_result, on_setup_failed, NetCommand, NetEvent, NetStep,
    RecvOutcome, Setup,
};
use udd::tui::InputMode;

fn typed(app: &mut App, text: &str) {
    for c in text.chars() {
        assert_eq!(app.on_key(Key::Char(c)), None);
    }
}

#[test]
fn app_starts_ready() {
    let app = App::new();
    assert_eq!(app.input, "");
    assert_eq!(app.input_mode, InputMode::Auto);
    assert_eq!(
        app.log,
        vec![LogEntry {
            display: "Ready. Tab=mode, Enter=send, Esc=quit".to_string(),
            kind: LineKind::Notice,
            payload: None,
        }]
    );
    assert_eq!(app.log_height, 0);
    assert_eq!(app.scroll_offset, 0);
    assert!(app.running);
}

#[test]
fn keys_edit_the_line() {
    let mut app = App::new();
    typed(&mut app, "pin\u{e9}");
    assert_eq!(app.input, "pin\u{e9}");
    assert_eq!(app.on_key(Key::Backspace), None);
    assert_eq!(app.input, "pin");
    assert_eq!(app.on_key(Key::Other), None);
    assert_eq!(app.input, "pin");
    typed(&mut app, "g");
    assert_eq!(app.on_key(Key::Enter), Some((InputMode::Auto, "ping".to_string())));
    assert_eq!(app.input, "");
    assert_eq!(app.on_key(Key::Enter), None);
    assert_eq!(app.on_key(Key::Backspace), None);
    assert_eq!(app.input, "");
    assert!(app.running);
    assert_eq!(app.log.len(), 1);
}

#[test]
fn keys_change_mode_and_end() {
    let mut app = App::new();
    assert_eq!(app.on_key(Key::Tab), None);
    assert_eq!(app.input_mode, InputMode::Text);
    app.cycle_mode();
    assert_eq!(app.input_mode, InputMode::Hex);
    typed(&mut app, "ff");
    assert_eq!(app.send(), Some((InputMode::Hex, "ff".to_string())));
    assert_eq!(app.send(), None);
    assert_eq!(app.on_key(Key::Esc), None);
    assert!(!app.running);
}

#[test]
fn log_follows_and_scrolls() {
    let mut app = App::new();
    app.log_height = 12;
    for i in 0..29 {
        app.log_msg(format!("line {}", i), LineKind::Notice, None);
    }
    assert_eq!(app.log.len(), 30);
    assert_eq!(app.scroll_offset, 20);
    assert_eq!(app.visible(), (20, 30));
    assert_eq!(app.on_key(Key::ScrollUp), None);
    assert_eq!(app.scroll_offset, 17);
    assert_eq!(app.visible(), (17, 27));
    app.scroll(-100);
    assert_eq!(app.scroll_offset, 0);
    assert_eq!(app.visible(), (0, 10));
    assert_eq!(app.on_key(Key::ScrollDown), None);
    assert_eq!(app.scroll_offset, 3);
    app.scroll(100);
    assert_eq!(app.scroll_offset, 20);
    app.log_height = 2;
    assert_eq!(app.visible(), (20, 20));
    app.log_height = 100;
    assert_eq!(app.visible(), (20, 30));
    app.scroll_offset = 99;
    assert_eq!(app.visible(), (30, 30));
}

#[test]
fn reports_become_log_lines() {
    let mut app = App::new();
    app.on_net_event(NetEvent::Sent { mode: InputMode::Hex, data: vec![0xde, 0xad], sent: 2 });
    assert_eq!(
        app.log[1],
        LogEntry {
            display: "\u{2192} [HEX] 2 bytes: de ad".to_string(),
            kind: LineKind::Sent,
            payload: Some((InputMode::Hex, vec![0xde, 0xad])),
        }
    );
    app.cycle_mode();
    app.on_net_event(NetEvent::Received(b"hi".to_vec()));
    assert_eq!(
        app.log[2],
        LogEntry {
            display: "\u{2190} 2 bytes: hi".to_string(),
            kind: LineKind::Received,
            payload: Some((InputMode::Text, b"hi".to_vec())),
        }
    );
    typed(&mut app, "half a line");
    app.on_net_event(NetEvent::Error("Send failed: no route".to_string()));
    assert_eq!(
        app.log[3],
        LogEntry {
            display: "\u{2717} Send failed: no route".to_string(),
            kind: LineKind::Fault,
            payload: None,
        }
    );
    assert_eq!(app.input, "half a line");
    assert!(app.running);
    // One row shows: the log has followed its last line.
    assert_eq!(app.scroll_offset, 4);
}

#[test]
fn losing_the_network_side_ends_the_program() {
    let mut app = App::new();
    typed(&mut app, "text");
    app.on_disconnected();
    assert!(!app.running);
    assert_eq!(app.input, "");
    assert_eq!(app.log[1].display, "\u{2717} Network thread disconnected");
    assert_eq!(app.log[1].kind, LineKind::Fault);

    let mut app = App::new();
    typed(&mut app, "text");
    app.on_send_failed("sending on a closed channel");
    assert!(!app.running);
    assert_eq!(app.input, "");
    assert_eq!(
        app.log[1].display,
        "\u{2717} Network thread unavailable: sending on a closed channel"
    );

    let mut app = App::new();
    typed(&mut app, "text");
    app.log_error("oops");
    assert!(app.running);
    assert_eq!(app.input, "");
    assert_eq!(app.log[1].display, "\u{2717} oops");
}

#[test]
fn commands_to_the_network_side() {
    let mut counter = 7u16;
    assert_eq!(on_command(NetCommand::Shutdown, &mut counter), NetStep::Stop);
    assert_eq!(counter, 7);
    let send = |mode, input: &str| NetCommand::Send { mode, input: input.to_string() };
    assert_eq!(
        on_command(send(InputMode::Auto, "ping"), &mut counter),
        NetStep::Transmit { mode: InputMode::Mqtt, data: vec![4, 7, 0, 7] }
    );
    assert_eq!(counter, 8);
    assert_eq!(
        on_command(send(InputMode::Auto, "beef"), &mut counter),
        NetStep::Transmit { mode: InputMode::Hex, data: vec![0xbe, 0xef] }
    );
    assert_eq!(counter, 8);
    assert_eq!(
        on_command(send(InputMode::Text, "ping"), &mut counter),
        NetStep::Transmit { mode: InputMode::Text, data: b"ping".to_vec() }
    );
    assert_eq!(counter, 8);
    assert_eq!(
        on_command(send(InputMode::Mqtt, "nope"), &mut counter),
        NetStep::Report("unknown command: nope".to_string())
    );
    assert_eq!(counter, 8);
    counter = 65535;
    assert_eq!(
        on_command(send(InputMode::Mqtt, "pong"), &mut counter),
        NetStep::Transmit { mode: InputMode::Mqtt, data: vec![4, 8, 0xFF, 0xFF] }
    );
    assert_eq!(counter, 0);
}

#[test]
fn outcomes_of_the_socket() {
    assert_eq!(
        on_send_result(InputMode::Hex, vec![1, 2], Ok(2)),
        NetEvent::Sent { mode: InputMode::Hex, data: vec![1, 2], sent: 2 }
    );
    assert_eq!(
        on_send_result(InputMode::Hex, vec![1, 2], Err("no route".to_string())),
        NetEvent::Error("Send failed: no route".to_string())
    );
    assert_eq!(
        on_recv_result(RecvOutcome::Data(vec![9])),
        Some(NetEvent::Received(vec![9]))
    );
    assert_eq!(on_recv_result(RecvOutcome::WouldBlock), None);
    assert_eq!(
        on_recv_result(RecvOutcome::Refused),
        Some(NetEvent::Error("ICMP: Connection refused (port unreachable)".to_string()))
    );
    assert_eq!(
        on_recv_result(RecvOutcome::Failed("reset".to_string())),
        Some(NetEvent::Error("Receive failed: reset".to_string()))
    );
    assert_eq!(
        on_setup_failed(Setup::Bind, "in use"),
        NetEvent::Error("Bind failed: in use".to_string())
    );
    assert_eq!(
        on_setup_failed(Setup::Connect, "bad address"),
        NetEvent::Error("Connect failed: bad address".to_string())
    );
    assert_eq!(
        on_setup_failed(Setup::Nonblocking, "no"),
        NetEvent::Error("Failed to set nonblocking: no".to_string())
    );
}

#[test]
fn lines_of_the_line_front_end() {
    assert_eq!(cli_action(""), CliAction::Skip);
    assert_eq!(cli_action("  \n"), CliAction::Skip);
    assert_eq!(cli_action("quit\n"), CliAction::Quit);
    assert_eq!(cli_action("exit now"), CliAction::Quit);
    assert_eq!(cli_action("text hello world\n"), CliAction::Send(b"hello world".to_vec()));
    assert_eq!(cli_action("text  two\n"), CliAction::Send(b" two".to_vec()));
    assert_eq!(cli_action("text"), CliAction::Send(vec![]));
    assert_eq!(cli_action("text \u{e9}"), CliAction::Send(vec![0xC3, 0xA9]));
    assert_eq!(cli_action("hex de ad\n"), CliAction::Send(vec![0xde, 0xad]));
    assert_eq!(cli_action("hex"), CliAction::Send(vec![]));
    assert_eq!(
        cli_action("hex abc"),
        CliAction::Complain("Invalid hex: odd number of hex digits".to_string())
    );
    assert_eq!(
        cli_action("hex zz"),
        CliAction::Complain("Invalid hex: invalid digit found in string".to_string())
    );
    assert_eq!(cli_action("file /tmp/x y\n"), CliAction::SendFile("/tmp/x y".to_string()));
    assert_eq!(cli_action("file"), CliAction::SendFile("".to_string()));
    assert_eq!(
        cli_action("send it"),
        CliAction::Complain("Unknown command: send".to_string())
    );
    assert_eq!(
        cli_action("TEXT x"),
        CliAction::Complain("Unknown command: TEXT".to_string())
    );
    assert_eq!(
        cli_action("text\tx"),
        CliAction::Complain("Unknown command: text\tx".to_string())
    );
}

#[test]
fn reports_of_the_line_front_end() {
    assert_eq!(sent_report(0, false), "Sent 0 bytes");
    assert_eq!(sent_report(1500, false), "Sent 1500 bytes");
    assert_eq!(sent_report(42, true), "Sent 42 bytes from file");
    assert_eq!(file_error("not found"), "File error: not found");
}
