use cli_warden::hook::{
    decide_by_reply, hook_request, run_allow_hook, HookAction, HookDecision, HookEvent, HookPhase,
};

fn run(events: Vec<HookEvent>) -> (HookPhase, HookAction) {
    let mut phase = HookPhase::Spawning;
    let mut action = HookAction::Wait;
    for event in events {
        let (next, todo) = run_allow_hook(phase, event);
        phase = next;
        action = todo;
    }
    (phase, action)
}

fn decision(events: Vec<HookEvent>) -> HookDecision {
    match run(events) {
        (HookPhase::Ended, HookAction::Finish { decision, .. }) => decision,
        other => panic!("no decision: {other:?}"),
    }
}

#[test]
fn hook_timeout_returns_cancel() {
    let (_, action) = run(vec![
        HookEvent::Spawned { stdin: true },
        HookEvent::StdinWritten,
        HookEvent::TimedOut,
    ]);
    assert!(matches!(
        action,
        HookAction::Finish {
            decision: HookDecision::Cancel,
            kill: true,
            drain: true,
        }
    ));
}

#[test]
fn invalid_json_returns_cancel() {
    let before = vec![
        HookEvent::Spawned { stdin: true },
        HookEvent::StdinWritten,
        HookEvent::Exited { success: true },
        HookEvent::OutputRead(b"not-json\n".to_vec()),
    ];
    let (_, action) = run(before.clone());
    assert!(matches!(&action, HookAction::Parse(text) if text == "not-json"));
    let mut events = before;
    events.push(HookEvent::ParseFailed);
    assert!(matches!(decision(events), HookDecision::Cancel));
}

#[test]
fn non_utf8_stdout_returns_cancel() {
    let decided = decision(vec![
        HookEvent::Spawned { stdin: true },
        HookEvent::StdinWritten,
        HookEvent::Exited { success: true },
        HookEvent::OutputRead(vec![0xff]),
    ]);
    assert!(matches!(decided, HookDecision::Cancel));
}

#[test]
fn missing_hook_binary_returns_cancel() {
    let decided = decision(vec![HookEvent::SpawnFailed]);
    assert!(matches!(decided, HookDecision::Cancel));
}

#[test]
fn every_other_failure_cancels() {
    let spawned = || HookEvent::Spawned { stdin: false };
    assert!(matches!(
        decision(vec![spawned(), HookEvent::WaitFailed]),
        HookDecision::Cancel
    ));
    assert!(matches!(
        decision(vec![spawned(), HookEvent::StdoutMissing]),
        HookDecision::Cancel
    ));
    assert!(matches!(
        decision(vec![
            spawned(),
            HookEvent::Exited { success: false },
            HookEvent::OutputRead(b"{\"decision\":\"yes\"}".to_vec()),
        ]),
        HookDecision::Cancel
    ));
    assert!(matches!(
        decision(vec![
            spawned(),
            HookEvent::Exited { success: true },
            HookEvent::OutputFailed,
        ]),
        HookDecision::Cancel
    ));
    let (_, action) = run(vec![
        HookEvent::Spawned { stdin: true },
        HookEvent::StdinFailed,
    ]);
    assert!(matches!(
        action,
        HookAction::Finish {
            decision: HookDecision::Cancel,
            kill: true,
            drain: false,
        }
    ));
}

#[test]
fn yes_lets_the_request_run() {
    let decided = decision(vec![
        HookEvent::Spawned { stdin: true },
        HookEvent::StdinWritten,
        HookEvent::Exited { success: true },
        HookEvent::OutputRead(b"{\"decision\":\"yes\"}\n".to_vec()),
        HookEvent::Parsed {
            decision: "yes".to_string(),
            reply: None,
        },
    ]);
    assert!(matches!(decided, HookDecision::Yes));
}

#[test]
fn replies_stand_for_decisions() {
    assert!(matches!(decide_by_reply("yes", None), HookDecision::Yes));
    assert!(matches!(decide_by_reply("no", None), HookDecision::No));
    assert!(matches!(decide_by_reply("cancel", None), HookDecision::Cancel));
    assert!(matches!(decide_by_reply("YES", None), HookDecision::Cancel));
    let reply = decide_by_reply("user-reply", Some("later".to_string()));
    assert!(matches!(&reply, HookDecision::UserReply(text) if text == "later"));
    assert!(matches!(
        decide_by_reply("user-reply", None),
        HookDecision::Cancel
    ));
}

#[test]
fn request_is_one_json_object() {
    let argv = vec!["calendar".to_string(), "add".to_string()];
    assert_eq!(
        hook_request("gog", &argv, "add reminder"),
        "{\"cmd\":\"gog\",\"argv\":[\"calendar\",\"add\"],\"intent\":\"add reminder\"}"
    );
    assert_eq!(
        hook_request("g", &[], ""),
        "{\"cmd\":\"g\",\"argv\":[],\"intent\":\"\"}"
    );
}

#[test]
fn request_escapes_what_json_escapes() {
    let argv = vec!["a\"b\\c\n\t\r\u{8}\u{c}\u{1}\u{1f}é/".to_string()];
    assert_eq!(
        hook_request("x", &argv, ""),
        "{\"cmd\":\"x\",\"argv\":[\"a\\\"b\\\\c\\n\\t\\r\\b\\f\\u0001\\u001fé/\"],\"intent\":\"\"}"
    );
}
