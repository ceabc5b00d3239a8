use cli_warden::config::{CommandEntry, Effect, PolicyConfig};
use cli_warden::hook::HookDecision;
use cli_warden::policy::PolicyEngine;
use cli_warden::server::{AuditRecord, ExecuteDone, ExecuteStart, WardenService};
use cli_warden::server_model::Outcome;
use cli_warden::session::{
    end_failure, stream_name, Inbound, SessionAction, SessionEvent, SessionPhase, StreamEnd,
};
use cli_warden::session_model::OutputStream;

fn list(items: &[&str]) -> Vec<String> {
    items.iter().map(|s| s.to_string()).collect()
}

fn service() -> WardenService {
    let cfg = PolicyConfig {
        default: Effect::Audit,
        ask_requires_intent: false,
        allow_hook_timeout_secs: 30,
        allow_hook: Some("/hook".to_string()),
        allow: Vec::new(),
        deny: list(&["demo blocked"]),
        ask: list(&["demo ask"]),
    };
    let engine = PolicyEngine::from_config(&cfg, &[]).expect("policy");
    let commands = [CommandEntry {
        id: "demo".to_string(),
        path: "/bin/echo".to_string(),
    }];
    WardenService::new(engine, &commands, None).expect("service")
}

fn start(cmd: &str, args: &[&str]) -> SessionEvent {
    SessionEvent::Inbound(Inbound::Start(ExecuteStart {
        cmd: cmd.to_string(),
        args: list(args),
        intent: String::new(),
    }))
}

fn chunk(bytes: &[u8]) -> SessionEvent {
    SessionEvent::Inbound(Inbound::StdinChunk(bytes.to_vec()))
}

fn spawned() -> SessionEvent {
    SessionEvent::Spawned {
        stdout: true,
        stderr: true,
        stdin: true,
    }
}

fn ended(stream: OutputStream, end: StreamEnd) -> SessionEvent {
    SessionEvent::OutputEnded { stream, end }
}

fn run(events: Vec<SessionEvent>) -> (SessionPhase, Vec<SessionAction>) {
    let svc = service();
    let mut phase = SessionPhase::AwaitingStart;
    let mut actions = Vec::new();
    for event in events {
        let (next, action) = svc.handle_execute_stream(phase, event);
        phase = next;
        actions.push(action);
    }
    (phase, actions)
}

fn running(mut more: Vec<SessionEvent>) -> (SessionPhase, Vec<SessionAction>) {
    let mut events = vec![start("demo", &["ok"]), spawned()];
    events.append(&mut more);
    run(events)
}

struct Answer {
    kill: bool,
    abort: bool,
    done: ExecuteDone,
    audit: Option<AuditRecord>,
}

fn answer(run: (SessionPhase, Vec<SessionAction>)) -> Answer {
    let (phase, mut actions) = run;
    assert!(matches!(phase, SessionPhase::Ended));
    match actions.pop() {
        Some(SessionAction::Finish {
            kill,
            abort,
            done,
            audit,
        }) => {
            assert!(!actions
                .iter()
                .any(|a| matches!(a, SessionAction::Finish { .. })));
            Answer {
                kill,
                abort,
                done,
                audit,
            }
        }
        other => panic!("no answer: {other:?}"),
    }
}

#[test]
fn protocol_missing_start_returns_error_done_event() {
    let done = answer(run(vec![SessionEvent::Inbound(Inbound::StdinEof)]));
    assert_eq!(done.done.outcome, Outcome::Error);
    assert!(done
        .done
        .message
        .contains("first stream message must be start"));
    let audit = done.audit.expect("audit");
    assert_eq!(audit.cmd, "<missing-start>");
    assert_eq!(audit.effect, "<none>");
    assert_eq!(audit.rule_source, "<none>");

    let done = answer(run(vec![SessionEvent::Inbound(Inbound::Closed)]));
    assert_eq!(done.done.message, "missing stream start message");
    let done = answer(run(vec![SessionEvent::Inbound(Inbound::Failed(
        "reset".to_string(),
    ))]));
    assert_eq!(done.done.message, "input stream failed before start: reset");
    let done = answer(run(vec![SessionEvent::Inbound(Inbound::Empty)]));
    assert_eq!(done.done.message, "first stream message must be start");
}

#[test]
fn streamed_request_is_admitted_like_any_other() {
    let done = answer(run(vec![start("nope", &[])]));
    assert_eq!(done.done.outcome, Outcome::Denied);
    assert_eq!(done.done.message, "command 'nope' is not registered");
    let done = answer(run(vec![start("demo", &["blocked", "x"])]));
    assert_eq!(done.done.message, "denied by policy");
    assert_eq!(done.audit.expect("audit").effect, "<none>");

    let (_, actions) = run(vec![start("demo", &["ask", "x"])]);
    assert!(matches!(
        &actions[0],
        SessionAction::AskHook { hook_path, timeout_secs: 30, payload }
            if hook_path == "/hook"
                && payload == "{\"cmd\":\"demo\",\"argv\":[\"ask\",\"x\"],\"intent\":\"\"}"
    ));
    let done = answer(run(vec![
        start("demo", &["ask", "x"]),
        SessionEvent::HookDecided(HookDecision::No),
    ]));
    assert_eq!(done.done.message, "denied by allow_hook");
    let (_, actions) = run(vec![
        start("demo", &["ask", "x"]),
        SessionEvent::HookDecided(HookDecision::Yes),
    ]);
    assert!(matches!(
        &actions[1],
        SessionAction::Spawn { path, args } if path == "/bin/echo" && args == &["ask", "x"]
    ));
}

#[test]
fn command_that_cannot_be_started_is_reported() {
    let done = answer(run(vec![
        start("demo", &["ok"]),
        SessionEvent::SpawnFailed("no file".to_string()),
    ]));
    assert_eq!(done.done.message, "failed to start command: no file");
    assert!(!done.kill);
    let audit = done.audit.expect("audit");
    assert_eq!(audit.effect, "Audit");
    assert_eq!(audit.rule_source, "default");

    for (stdout, stderr, message) in [
        (false, true, "stdout pipe unavailable"),
        (true, false, "stderr pipe unavailable"),
        (false, false, "stdout pipe unavailable"),
    ] {
        let done = answer(run(vec![
            start("demo", &["ok"]),
            SessionEvent::Spawned {
                stdout,
                stderr,
                stdin: true,
            },
        ]));
        assert_eq!(done.done.message, message);
        assert!(done.audit.is_none());
    }
}

#[test]
fn ends_may_come_in_any_order() {
    let exited = || SessionEvent::Exited { code: Some(5) };
    let out = || ended(OutputStream::Stdout, StreamEnd::Complete);
    let err = || ended(OutputStream::Stderr, StreamEnd::Complete);
    for events in [
        vec![exited(), out(), err()],
        vec![exited(), err(), out()],
        vec![out(), exited(), err()],
        vec![err(), exited(), out()],
        vec![out(), err(), exited()],
        vec![err(), out(), exited()],
    ] {
        let done = answer(running(events));
        assert_eq!(done.done.outcome, Outcome::Executed);
        assert_eq!(done.done.exit_code, 5);
        assert_eq!(done.done.message, "");
        assert!(!done.kill);
    }
}

#[test]
fn input_reaches_the_command_in_order() {
    let (phase, actions) = running(vec![
        chunk(b"hello "),
        SessionEvent::StdinWritten,
        SessionEvent::Inbound(Inbound::Empty),
        chunk(b"world"),
        SessionEvent::StdinWritten,
        SessionEvent::Inbound(Inbound::StdinEof),
        chunk(b"late"),
    ]);
    let mut written = Vec::new();
    for action in &actions {
        if let SessionAction::WriteStdin(bytes) = action {
            written.extend_from_slice(bytes);
        }
    }
    assert_eq!(written, b"hello world");
    assert!(matches!(&actions[7], SessionAction::CloseStdin));
    assert!(matches!(&actions[8], SessionAction::Wait));
    assert!(matches!(phase, SessionPhase::Running(run) if !run.stdin_open));
}

#[test]
fn command_that_stops_reading_goes_on() {
    let (phase, actions) = running(vec![chunk(b"x"), SessionEvent::StdinBroken]);
    assert!(matches!(actions.last(), Some(SessionAction::CloseStdin)));
    assert!(matches!(phase, SessionPhase::Running(run) if !run.stdin_open));
}

#[test]
fn failing_input_kills_the_command() {
    let done = answer(running(vec![
        chunk(b"x"),
        SessionEvent::StdinFailed("io".to_string()),
    ]));
    assert!(done.kill && !done.abort);
    assert_eq!(done.done.message, "stdin write failed: io");
    let done = answer(running(vec![start("demo", &["ok"])]));
    assert!(done.kill);
    assert_eq!(
        done.done.message,
        "unexpected start message after stream start"
    );
    let done = answer(running(vec![SessionEvent::Inbound(Inbound::Failed(
        "reset".to_string(),
    ))]));
    assert!(done.kill);
    assert_eq!(done.done.message, "input stream failed: reset");
}

#[test]
fn failing_output_kills_the_command() {
    let refused = || "non-UTF-8 stream data is unsupported; fail closed".to_string();
    let done = answer(running(vec![ended(
        OutputStream::Stdout,
        StreamEnd::Failed(refused()),
    )]));
    assert!(done.kill && done.abort);
    assert_eq!(done.done.outcome, Outcome::Error);
    assert_eq!(done.done.exit_code, -1);
    assert!(done.done.message.contains("non-UTF-8"));
    let done = answer(running(vec![
        ended(OutputStream::Stdout, StreamEnd::Complete),
        ended(OutputStream::Stderr, StreamEnd::JoinFailed("lost".to_string())),
    ]));
    assert!(done.kill && !done.abort);
    assert_eq!(done.done.message, "stderr stream task join failed: lost");
}

#[test]
fn failures_behind_the_end_keep_the_exit_code() {
    let done = answer(running(vec![
        SessionEvent::Exited { code: Some(0) },
        ended(OutputStream::Stderr, StreamEnd::Failed("two".to_string())),
        ended(OutputStream::Stdout, StreamEnd::Failed("one".to_string())),
    ]));
    assert!(!done.kill);
    assert_eq!(done.done.outcome, Outcome::Error);
    assert_eq!(done.done.exit_code, 0);
    assert_eq!(done.done.message, "stdout stream failed: one");
    let done = answer(running(vec![
        SessionEvent::Exited { code: None },
        ended(OutputStream::Stdout, StreamEnd::Complete),
        ended(OutputStream::Stderr, StreamEnd::Failed("two".to_string())),
    ]));
    assert_eq!(done.done.exit_code, -1);
    assert_eq!(done.done.message, "stderr stream failed: two");
}

#[test]
fn request_ends_with_its_command_whatever_happens() {
    let event = |which: usize, ok: bool| match which {
        0 => SessionEvent::Exited { code: Some(1) },
        n => ended(
            if n == 1 {
                OutputStream::Stdout
            } else {
                OutputStream::Stderr
            },
            if ok {
                StreamEnd::Complete
            } else {
                StreamEnd::Failed("x".to_string())
            },
        ),
    };
    for order in [
        [0, 1, 2],
        [0, 2, 1],
        [1, 0, 2],
        [2, 0, 1],
        [1, 2, 0],
        [2, 1, 0],
    ] {
        for (out, err) in [(true, true), (false, true), (true, false), (false, false)] {
            let events = order
                .iter()
                .map(|which| event(*which, if *which == 1 { out } else { err }))
                .collect();
            let (phase, actions) = running(events);
            assert!(matches!(phase, SessionPhase::Ended));
            let answers = actions
                .iter()
                .filter(|a| matches!(a, SessionAction::Finish { .. }))
                .count();
            assert_eq!(answers, 1);
        }
    }
}

#[test]
fn command_that_cannot_be_waited_for_is_reported() {
    let done = answer(running(vec![SessionEvent::WaitFailed("gone".to_string())]));
    assert!(!done.kill);
    assert_eq!(done.done.message, "command wait failed: gone");
}

#[test]
fn nothing_follows_the_answer() {
    let (phase, actions) = run(vec![
        start("nope", &[]),
        start("demo", &["ok"]),
        SessionEvent::Exited { code: Some(0) },
    ]);
    assert!(matches!(phase, SessionPhase::Ended));
    assert!(matches!(&actions[1], SessionAction::Wait));
    assert!(matches!(&actions[2], SessionAction::Wait));
}

#[test]
fn streams_have_names() {
    assert_eq!(stream_name(OutputStream::Stdout), "stdout");
    assert_eq!(stream_name(OutputStream::Stderr), "stderr");
    assert_eq!(
        end_failure(OutputStream::Stdout, &StreamEnd::JoinFailed("x".to_string())),
        Some("stdout stream task join failed: x".to_string())
    );
    assert_eq!(end_failure(OutputStream::Stderr, &StreamEnd::Complete), None);
}
