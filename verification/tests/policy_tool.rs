use cli_warden::config::{Effect, PolicyConfig, RawRule};
use cli_warden::policy_tool::{run_explain, run_lint, run_test};

fn policy() -> PolicyConfig {
    PolicyConfig {
        default: Effect::Deny,
        ask_requires_intent: true,
        allow_hook_timeout_secs: 1800,
        allow_hook: None,
        allow: vec!["gog calendar list".to_string()],
        deny: vec!["gog contacts delete".to_string()],
        ask: vec!["gog calendar add".to_string()],
    }
}

fn list(items: &[&str]) -> Vec<String> {
    items.iter().map(|s| s.to_string()).collect()
}

#[test]
fn lint_accepts_what_can_be_loaded() {
    assert_eq!(
        run_lint(&policy(), &[]).expect("fine"),
        "OK: policy config parsed and validated"
    );
    let mut bad = policy();
    bad.deny.push("gog calendar list".to_string());
    let err = run_lint(&bad, &[]).expect_err("conflict");
    assert_eq!(
        err.message(),
        "conflicting tied rules for command 'gog': policy.allow[0] vs policy.deny[1]"
    );
}

#[test]
fn test_shows_the_decision() {
    let args = list(&["calendar", "list", "today"]);
    assert_eq!(
        run_test(&policy(), &[], "gog", &args, "").expect("decided"),
        list(&[
            "effect: Allow",
            "intent_required: false",
            "matched_rule: policy.allow[0]",
        ])
    );
    assert_eq!(
        run_test(&policy(), &[], "gog", &list(&["calendar", "add"]), " ").expect("decided"),
        list(&[
            "effect: Ask",
            "intent_required: true",
            "matched_rule: policy.ask[0]",
            "would_deny: missing intent",
        ])
    );
    assert_eq!(
        run_test(&policy(), &[], "other", &[], "").expect("decided"),
        list(&[
            "effect: Deny",
            "intent_required: false",
            "matched_rule: <default>",
        ])
    );
}

#[test]
fn explain_shows_how_the_decision_came_about() {
    assert_eq!(
        run_explain(&policy(), &[], "gog", &list(&["calendar", "add"]), "now").expect("decided"),
        list(&[
            "cmd: gog",
            "args: [\"calendar\", \"add\"]",
            "effect: Ask",
            "intent_required: true",
            "matched_source: policy.ask[0]",
            "matcher: prefix",
            "specificity: 3",
            "arg_len: 2",
            "effective_result: Ask",
        ])
    );
    assert_eq!(
        run_explain(&policy(), &[], "x", &list(&["a\"b"]), "").expect("decided"),
        list(&[
            "cmd: x",
            "args: [\"a\\\"b\"]",
            "effect: Deny",
            "intent_required: false",
            "matched_source: <default policy>",
            "effective_result: Deny",
        ])
    );
    let lines = run_explain(&policy(), &[], "gog", &list(&["calendar", "add"]), "").expect("lines");
    assert_eq!(
        lines.last().map(|s| s.as_str()),
        Some("effective_result: deny (missing intent)")
    );
}

#[test]
fn tools_report_what_the_policy_cannot_decide() {
    let rule = |effect, glob: &str| RawRule {
        effect,
        cmd: "demo".to_string(),
        args_exact: None,
        args_prefix: None,
        args_glob: Some(vec![glob.to_string()]),
        args_regex: None,
        intent_required: None,
    };
    let rules = [rule(Effect::Allow, "a*"), rule(Effect::Deny, "*a")];
    assert!(run_test(&policy(), &rules, "demo", &list(&["a"]), "").is_err());
    assert!(run_explain(&policy(), &rules, "demo", &list(&["a"]), "").is_err());
    assert!(run_lint(&policy(), &rules).is_ok());
}
