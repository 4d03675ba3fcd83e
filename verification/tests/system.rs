use cli_agent::command::{command_report, decode, ended_text, CommandOutcome};
use cli_agent::frontend::{
    on_command_read, on_sent, on_socket_input, ClientCommand, FrontendEvent, Heartbeat,
    SocketAction, SocketInput, BIND_ADDRESS, PORT,
};
use cli_agent::port::{read_fuser, read_lsof, PortAction, PortRelease, ProcessOutput};

fn ran(success: bool, stdout: &str) -> Option<ProcessOutput> {
    Some(ProcessOutput {
        success,
        stdout: stdout.as_bytes().to_vec(),
    })
}

fn shown(action: PortAction) -> String {
    match action {
        PortAction::Capture { call } => format!("capture {} {}", call.program, call.args.join("|")),
        PortAction::Run { call } => format!("run {} {}", call.program, call.args.join("|")),
        PortAction::Sleep { millis } => format!("sleep {millis}"),
        PortAction::Finish { free } => format!("finish {free}"),
    }
}

fn course(results: Vec<Option<ProcessOutput>>) -> Vec<String> {
    let mut release = PortRelease::new(8080);
    let mut seen = vec![shown(release.action())];
    for result in results {
        release.advance(&result);
        seen.push(shown(release.action()));
    }
    seen
}

#[test]
fn a_command_that_succeeds_is_told_by_its_output() {
    assert_eq!(ended_text(true, "exit status: 0", "out\n", "noise"), "out\n");
    assert_eq!(ended_text(true, "exit status: 0", "", "noise"), "(команда выполнена без вывода)");
}

#[test]
fn a_command_that_fails_is_told_with_its_status() {
    assert_eq!(
        ended_text(false, "exit status: 2", "", "bad\n"),
        "Команда завершилась с ошибкой (код exit status: 2):\nbad\n"
    );
    assert_eq!(
        ended_text(false, "exit status: 2", "half", "bad"),
        "Команда завершилась с ошибкой (код exit status: 2):\nbad\nStdout:\nhalf"
    );
}

#[test]
fn output_that_is_not_utf8_is_decoded_with_replacements() {
    assert_eq!(decode(b"a\xffb"), "a\u{fffd}b");
    assert_eq!(decode("да".as_bytes()), "да");
    let outcome = CommandOutcome::Ended {
        success: true,
        status: "exit status: 0".to_string(),
        stdout: b"\xd0".to_vec(),
        stderr: Vec::new(),
    };
    assert_eq!(command_report(&outcome), "\u{fffd}");
}

#[test]
fn a_command_that_cannot_run_is_told() {
    let outcome = CommandOutcome::NotRun {
        error: "no shell".to_string(),
    };
    assert_eq!(command_report(&outcome), "Не удалось выполнить команду: no shell");
}

#[test]
fn processes_are_read_from_the_tools() {
    assert_eq!(read_fuser(" 123 456\n"), Some(456));
    assert_eq!(read_fuser("12\t34\n56"), Some(56));
    assert_eq!(read_fuser("12 x"), None);
    assert_eq!(read_fuser("  "), None);
    assert_eq!(read_lsof("12\n34\n"), Some(34));
    assert_eq!(read_lsof("12"), Some(12));
    assert_eq!(read_lsof("12 34"), None);
    assert_eq!(read_lsof("12\r\n34"), Some(34));
    assert_eq!(read_lsof(""), None);
}

#[test]
fn a_port_without_a_listener_is_free() {
    assert_eq!(
        course(vec![None, None]),
        vec![
            "capture fuser 8080/tcp",
            "capture sh -c|lsof -ti tcp:8080 -sTCP:LISTEN 2>/dev/null",
            "finish true"
        ]
    );
    assert_eq!(course(vec![ran(true, "")]), vec!["capture fuser 8080/tcp", "finish true"]);
    assert_eq!(
        course(vec![ran(false, ""), ran(false, "")]),
        vec![
            "capture fuser 8080/tcp",
            "capture sh -c|lsof -ti tcp:8080 -sTCP:LISTEN 2>/dev/null",
            "finish true"
        ]
    );
    assert_eq!(course(vec![ran(false, ""), None])[2], "finish true");
}

#[test]
fn lsof_is_asked_where_fuser_is_not_there() {
    assert_eq!(
        course(vec![None, ran(true, "1234\n"), ran(true, ""), None, ran(false, ""), ran(false, "")]),
        vec![
            "capture fuser 8080/tcp",
            "capture sh -c|lsof -ti tcp:8080 -sTCP:LISTEN 2>/dev/null",
            "run kill 1234",
            "sleep 500",
            "run kill -0|1234",
            "run kill -0|1234",
            "finish true"
        ]
    );
}

#[test]
fn a_listener_that_ends_when_asked_is_not_forced() {
    assert_eq!(
        course(vec![ran(true, " 77"), ran(true, ""), None, ran(false, ""), ran(false, "")]),
        vec![
            "capture fuser 8080/tcp",
            "run kill 77",
            "sleep 500",
            "run kill -0|77",
            "run kill -0|77",
            "finish true"
        ]
    );
}

#[test]
fn a_listener_that_stays_is_forced() {
    let forced = vec![
        ran(false, ""),
        ran(true, "5\n77\n"),
        ran(true, ""),
        None,
        ran(true, ""),
        ran(true, ""),
        None,
        ran(true, ""),
    ];
    assert_eq!(
        course(forced),
        vec![
            "capture fuser 8080/tcp",
            "capture sh -c|lsof -ti tcp:8080 -sTCP:LISTEN 2>/dev/null",
            "run kill 77",
            "sleep 500",
            "run kill -0|77",
            "run kill -9|77",
            "sleep 100",
            "run kill -0|77",
            "finish false"
        ]
    );
}

#[test]
fn freeing_a_port_ends() {
    for code in 0..(3usize.pow(8)) {
        let mut release = PortRelease::new(1);
        let mut rest = code;
        for _ in 0..8 {
            let result = match rest % 3 {
                0 => None,
                1 => ran(false, "9"),
                _ => ran(true, "9"),
            };
            rest /= 3;
            release.advance(&result);
        }
        assert!(matches!(release.action(), PortAction::Finish { .. }));
    }
}

#[test]
fn a_connection_is_served() {
    let event = SocketInput::Event {
        event: FrontendEvent::Ping,
    };
    assert!(matches!(on_socket_input(event), SocketAction::Send { event: FrontendEvent::Ping }));
    assert!(
        matches!(on_socket_input(SocketInput::Lagged { missed: 12 }), SocketAction::Warn { report } if report == "Frontend WS lagged by 12 events")
    );
    assert!(matches!(on_socket_input(SocketInput::Closed), SocketAction::Close));
    assert!(
        matches!(on_socket_input(SocketInput::ClientText { text: "{}".to_string() }), SocketAction::Forward { text } if text == "{}")
    );
    assert!(matches!(on_socket_input(SocketInput::ClientOther), SocketAction::Ignore));
    assert!(matches!(on_socket_input(SocketInput::ClientGone), SocketAction::Close));
    assert!(
        matches!(on_socket_input(SocketInput::ClientFailed { error: "reset".to_string() }), SocketAction::CloseWarning { report } if report == "Frontend WS receive error: reset")
    );
    assert!(matches!(on_sent(Some(true)), SocketAction::Ignore));
    assert!(matches!(on_sent(None), SocketAction::Ignore));
    assert!(matches!(on_sent(Some(false)), SocketAction::Close));
}

#[test]
fn text_that_is_no_command_is_passed_over() {
    assert!(matches!(on_command_read(None), SocketAction::Ignore));
    let command = ClientCommand::StartTask { prompt: "x".to_string() };
    assert!(
        matches!(on_command_read(Some(command)), SocketAction::Deliver { command: ClientCommand::StartTask { prompt } } if prompt == "x")
    );
}

#[test]
fn all_events_are_sent_in_order() {
    let inputs = vec![
        SocketInput::Event { event: FrontendEvent::AgentMessage { content: "a".to_string() } },
        SocketInput::ClientOther,
        SocketInput::Event { event: FrontendEvent::Ping },
        SocketInput::ClientText { text: "x".to_string() },
        SocketInput::Lagged { missed: 1 },
        SocketInput::Event { event: FrontendEvent::AgentMessage { content: "b".to_string() } },
    ];
    let mut sent: Vec<String> = Vec::new();
    let mut delivered: Vec<String> = Vec::new();
    for input in inputs {
        let action = match on_socket_input(input) {
            SocketAction::Send { event } => {
                sent.push(match event {
                    FrontendEvent::AgentMessage { content } => content,
                    other => format!("{other:?}"),
                });
                on_sent(Some(true))
            }
            SocketAction::Forward { text } => {
                on_command_read(Some(ClientCommand::StartTask { prompt: text }))
            }
            action => action,
        };
        match action {
            SocketAction::Deliver { command } => delivered.push(format!("{command:?}")),
            SocketAction::Ignore | SocketAction::Warn { .. } => {}
            other => panic!("the connection stays open: {other:?}"),
        }
    }
    assert_eq!(sent, vec!["a", "Ping", "b"]);
    assert_eq!(delivered, vec!["StartTask { prompt: \"x\" }"]);
}

#[test]
fn the_heartbeat_ends_where_nobody_receives() {
    let mut heartbeat = Heartbeat::new();
    assert!(heartbeat.goes_on());
    assert!(heartbeat.tick().is_none());
    assert!(heartbeat.tick().is_some());
    heartbeat.sent(true);
    assert!(heartbeat.goes_on());
    assert!(heartbeat.tick().is_some());
    heartbeat.sent(false);
    assert!(!heartbeat.goes_on());
    assert!(heartbeat.tick().is_none());
    heartbeat.sent(true);
    assert!(!heartbeat.goes_on());
}

#[test]
fn the_first_tick_is_silent() {
    let mut heartbeat = Heartbeat::new();
    assert!(heartbeat.tick().is_none());
    assert!(matches!(heartbeat.tick(), Some(FrontendEvent::Ping)));
    assert!(matches!(heartbeat.tick(), Some(FrontendEvent::Ping)));
}

#[test]
fn the_address_names_the_port() {
    assert_eq!(BIND_ADDRESS, format!("0.0.0.0:{PORT}"));
}

#[test]
fn copies_are_equal() {
    let event = FrontendEvent::ToolResult {
        tool_name: "run".to_string(),
        result: "ok".to_string(),
    };
    assert_eq!(format!("{:?}", event.clone()), format!("{event:?}"));
}
