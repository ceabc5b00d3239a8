use cli_warden::config::{CommandEntry, Effect, PolicyConfig};
use cli_warden::hook::HookDecision;
use cli_warden::policy::PolicyEngine;
use cli_warden::server::{
    ExecuteAction, ExecuteEvent, ExecutePhase, ExecuteRequest, ExecuteResponse, ExecuteStart,
    GateResult, WardenService,
};
use cli_warden::server_model::Outcome;
use cli_warden::session::{Inbound, SessionAction, SessionEvent, SessionPhase};
use cli_warden::setup::{daemon_config, Layout};

fn list(items: &[&str]) -> Vec<String> {
    items.iter().map(|s| s.to_string()).collect()
}

fn service(hook: Option<&str>, secrets: Option<&str>) -> WardenService {
    let cfg = PolicyConfig {
        default: Effect::Deny,
        ask_requires_intent: true,
        allow_hook_timeout_secs: 30,
        allow_hook: hook.map(|s| s.to_string()),
        allow: list(&["demo ok", "demo secret"]),
        deny: list(&["demo blocked"]),
        ask: list(&["demo ask"]),
    };
    let engine = PolicyEngine::from_config(&cfg, &[]).expect("policy");
    let entry = |id: &str, path: &str| CommandEntry {
        id: id.to_string(),
        path: path.to_string(),
    };
    let commands = [
        entry("zeta", "/bin/z"),
        entry("demo", "/bin/old"),
        entry("demo", "/bin/echo"),
    ];
    WardenService::new(engine, &commands, secrets).expect("service")
}

fn request(cmd: &str, args: &[&str], intent: &str, stdin: &str) -> ExecuteRequest {
    ExecuteRequest {
        start: ExecuteStart {
            cmd: cmd.to_string(),
            args: list(args),
            intent: intent.to_string(),
        },
        stdin_utf8: stdin.to_string(),
    }
}

fn run(svc: &WardenService, req: &ExecuteRequest, events: Vec<ExecuteEvent>) -> ExecuteAction {
    let (mut phase, mut action) = svc.execute(req, ExecutePhase::Received, ExecuteEvent::Received);
    for event in events {
        let (next, todo) = svc.execute(req, phase, event);
        phase = next;
        action = todo;
    }
    action
}

fn reply(action: ExecuteAction) -> ExecuteResponse {
    match action {
        ExecuteAction::Reply { response, audit } => {
            assert_eq!(audit.outcome, response.done.outcome);
            assert_eq!(audit.exit_code, response.done.exit_code);
            assert_eq!(audit.message, response.done.message);
            response
        }
        other => panic!("no reply: {other:?}"),
    }
}

fn finished(code: Option<i32>, stdout: &[u8], stderr: &[u8]) -> ExecuteEvent {
    ExecuteEvent::Finished {
        code,
        stdout: stdout.to_vec(),
        stderr: stderr.to_vec(),
    }
}

#[test]
fn commands_are_listed_in_order() {
    assert_eq!(service(None, None).list_commands(), list(&["demo", "zeta"]));
}

#[test]
fn unregistered_command_is_denied() {
    let req = request("nope", &["ok"], "", "");
    let response = reply(run(&service(None, None), &req, vec![]));
    assert_eq!(response.done.outcome, Outcome::Denied);
    assert_eq!(response.done.exit_code, -1);
    assert_eq!(response.done.message, "command 'nope' is not registered");
    assert_eq!(response.stdout_utf8, "");
}

#[test]
fn denied_command_is_not_run() {
    let req = request("demo", &["blocked", "whatever"], "", "");
    let response = reply(run(&service(None, None), &req, vec![]));
    assert_eq!(response.done.outcome, Outcome::Denied);
    assert_eq!(response.done.message, "denied by policy");
}

#[test]
fn missing_intent_is_denied() {
    let req = request("demo", &["ask", "job"], " \n", "");
    let response = reply(run(&service(Some("/hook"), None), &req, vec![]));
    assert_eq!(response.done.outcome, Outcome::Denied);
    assert_eq!(
        response.done.message,
        "intent_required: provide intent and retry"
    );
}

#[test]
fn asking_without_a_hook_is_cancelled() {
    let req = request("demo", &["ask", "job"], "why", "");
    let response = reply(run(&service(None, None), &req, vec![]));
    assert_eq!(response.done.outcome, Outcome::Cancelled);
    assert_eq!(
        response.done.message,
        "ask policy matched but no allow_hook configured"
    );
}

#[test]
fn hook_is_asked_and_followed() {
    let svc = service(Some("/hook"), None);
    let req = request("demo", &["ask", "job"], "why", "");
    match run(&svc, &req, vec![]) {
        ExecuteAction::AskHook {
            hook_path,
            timeout_secs,
            payload,
        } => {
            assert_eq!(hook_path, "/hook");
            assert_eq!(timeout_secs, 30);
            assert_eq!(
                payload,
                "{\"cmd\":\"demo\",\"argv\":[\"ask\",\"job\"],\"intent\":\"why\"}"
            );
        }
        other => panic!("not asked: {other:?}"),
    }
    let after = |hook| run(&svc, &req, vec![ExecuteEvent::HookDecided(hook)]);
    assert!(matches!(
        after(HookDecision::Yes),
        ExecuteAction::Spawn { path, args } if path == "/bin/echo" && args == ["ask", "job"]
    ));
    let no = reply(after(HookDecision::No));
    assert_eq!(no.done.outcome, Outcome::Denied);
    assert_eq!(no.done.message, "denied by allow_hook");
    let cancel = reply(after(HookDecision::Cancel));
    assert_eq!(cancel.done.outcome, Outcome::Cancelled);
    assert_eq!(cancel.done.message, "cancelled by allow_hook");
    let said = reply(after(HookDecision::UserReply("Need human approval".to_string())));
    assert_eq!(said.done.outcome, Outcome::UserReply);
    assert_eq!(said.done.message, "Need human approval");
}

#[test]
fn command_runs_and_its_output_is_redacted() {
    let svc = service(None, Some("TOPSECRET\n"));
    let req = request("demo", &["secret", "TOPSECRET"], "", "");
    assert!(matches!(
        run(&svc, &req, vec![]),
        ExecuteAction::Spawn { path, args } if path == "/bin/echo" && args == ["secret", "TOPSECRET"]
    ));
    let action = run(
        &svc,
        &req,
        vec![
            ExecuteEvent::Spawned { stdin: true },
            finished(Some(0), b"secret TOPSECRET\n", b"no TOPSECRET"),
        ],
    );
    match &action {
        ExecuteAction::Reply { audit, .. } => {
            assert_eq!(audit.cmd, "demo");
            assert_eq!(audit.args, ["secret", "TOPSECRET"]);
            assert_eq!(audit.effect, "Allow");
            assert_eq!(audit.rule_source, "policy.allow[1]");
        }
        other => panic!("no reply: {other:?}"),
    }
    let response = reply(action);
    assert_eq!(response.done.outcome, Outcome::Executed);
    assert_eq!(response.done.exit_code, 0);
    assert_eq!(response.done.message, "");
    assert_eq!(response.stdout_utf8, "secret <redacted>\n");
    assert_eq!(response.stderr_utf8, "no <redacted>");
}

#[test]
fn input_is_written_before_the_command_is_waited_for() {
    let svc = service(None, None);
    let req = request("demo", &["ok"], "", "hello");
    assert!(matches!(
        run(&svc, &req, vec![ExecuteEvent::Spawned { stdin: true }]),
        ExecuteAction::WriteStdin(text) if text == "hello"
    ));
    assert!(matches!(
        run(
            &svc,
            &req,
            vec![ExecuteEvent::Spawned { stdin: true }, ExecuteEvent::StdinWritten]
        ),
        ExecuteAction::WaitOutput
    ));
    assert!(matches!(
        run(&svc, &req, vec![ExecuteEvent::Spawned { stdin: false }]),
        ExecuteAction::WaitOutput
    ));
    let failed = reply(run(
        &svc,
        &req,
        vec![
            ExecuteEvent::Spawned { stdin: true },
            ExecuteEvent::StdinFailed("pipe".to_string()),
        ],
    ));
    assert_eq!(failed.done.outcome, Outcome::Error);
    assert_eq!(failed.done.message, "failed writing stdin: pipe");
}

#[test]
fn failures_of_the_command_are_reported() {
    let svc = service(None, None);
    let req = request("demo", &["ok"], "", "");
    let failed = reply(run(
        &svc,
        &req,
        vec![ExecuteEvent::SpawnFailed("no file".to_string())],
    ));
    assert_eq!(failed.done.message, "failed to start command: no file");
    let failed = reply(run(
        &svc,
        &req,
        vec![
            ExecuteEvent::Spawned { stdin: true },
            ExecuteEvent::WaitFailed("gone".to_string()),
        ],
    ));
    assert_eq!(failed.done.message, "command execution error: gone");
    let killed = reply(run(
        &svc,
        &req,
        vec![
            ExecuteEvent::Spawned { stdin: true },
            finished(None, b"", b""),
        ],
    ));
    assert_eq!(killed.done.outcome, Outcome::Executed);
    assert_eq!(killed.done.exit_code, -1);
}

#[test]
fn output_that_is_not_text_is_withheld() {
    let svc = service(None, None);
    let req = request("demo", &["ok"], "", "");
    for (out, err) in [(&b"\xff"[..], &b"fine"[..]), (&b"fine"[..], &b"\xff"[..])] {
        let response = reply(run(
            &svc,
            &req,
            vec![
                ExecuteEvent::Spawned { stdin: true },
                finished(Some(4), out, err),
            ],
        ));
        assert_eq!(response.done.outcome, Outcome::Error);
        assert_eq!(response.done.exit_code, 4);
        assert_eq!(
            response.done.message,
            "output redaction failed: non-UTF-8 stream data is unsupported; fail closed"
        );
        assert_eq!(response.stdout_utf8, "");
        assert_eq!(response.stderr_utf8, "");
    }
}

#[test]
fn events_out_of_place_change_nothing() {
    let svc = service(None, None);
    let req = request("demo", &["ok"], "", "");
    let (phase, action) = svc.execute(&req, ExecutePhase::Received, ExecuteEvent::StdinWritten);
    assert!(matches!(phase, ExecutePhase::Received));
    assert!(matches!(action, ExecuteAction::Ignore));
    let (phase, action) = svc.execute(&req, ExecutePhase::Ended, ExecuteEvent::Received);
    assert!(matches!(phase, ExecutePhase::Ended));
    assert!(matches!(action, ExecuteAction::Ignore));
}

#[test]
fn streamed_requests_are_admitted_alike() {
    let svc = service(Some("/hook"), None);
    for req in [
        request("demo", &["ok"], "", ""),
        request("demo", &["blocked"], "", ""),
        request("demo", &["ask"], "", ""),
        request("demo", &["ask"], "why", ""),
        request("nope", &[], "", ""),
    ] {
        let whole = run(&svc, &req, vec![]);
        let (_, streamed) = svc.handle_execute_stream(
            SessionPhase::AwaitingStart,
            SessionEvent::Inbound(Inbound::Start(req.start.clone())),
        );
        match (whole, streamed) {
            (
                ExecuteAction::Spawn { path, args },
                SessionAction::Spawn {
                    path: other,
                    args: same,
                },
            ) => assert_eq!((path, args), (other, same)),
            (
                ExecuteAction::AskHook { payload, .. },
                SessionAction::AskHook { payload: same, .. },
            ) => assert_eq!(payload, same),
            (ExecuteAction::Reply { response, .. }, SessionAction::Finish { done, .. }) => {
                assert_eq!(response.done.outcome, done.outcome);
                assert_eq!(response.done.message, done.message);
            }
            other => panic!("not alike: {other:?}"),
        }
    }
}

#[test]
fn new_daemon_denies_what_is_asked() {
    let cfg = daemon_config(&Layout::new("s"), "0.0.0.0:1", "https://a:1", "a");
    let engine = PolicyEngine::from_config(&cfg.policy, &cfg.rules).expect("policy");
    let decision = engine.evaluate("demo", &[]).expect("decided");
    assert_eq!(decision.effect, Effect::Deny);
    let svc = WardenService::new(engine, &cfg.commands, Some("")).expect("service");
    assert!(svc.list_commands().is_empty());
    let response = reply(run(&svc, &request("demo", &[], "why", ""), vec![]));
    assert_eq!(response.done.outcome, Outcome::Denied);
}

#[test]
fn undecided_policy_is_an_error() {
    let cfg = PolicyConfig {
        allow: list(&["demo a*"]),
        deny: list(&["demo *a"]),
        ..PolicyConfig::default()
    };
    let engine = PolicyEngine::from_config(&cfg, &[]).expect("policy");
    let commands = [CommandEntry {
        id: "demo".to_string(),
        path: "/bin/echo".to_string(),
    }];
    let svc = WardenService::new(engine, &commands, None).expect("service");
    let start = request("demo", &["a"], "", "").start;
    assert!(matches!(
        svc.apply_gate(&start),
        GateResult::Return { outcome: Outcome::Error, message } if message == "policy evaluation failed"
    ));
    let why = "conflicting policy rules for cmd 'demo' at same specificity: \
               [\"policy.allow[0]\", \"policy.deny[0]\"]";
    assert_eq!(svc.gate_failure(&start), Some(why.to_string()));
    assert_eq!(
        svc.policy.undecided("demo", &list(&["a"])),
        Some(why.to_string())
    );
    assert_eq!(svc.policy.undecided("demo", &list(&["ax"])), None);
    let decided = request("demo", &["ax"], "", "").start;
    assert_eq!(svc.gate_failure(&decided), None);
    let unknown = request("nope", &["a"], "", "").start;
    assert_eq!(svc.gate_failure(&unknown), None);
}
