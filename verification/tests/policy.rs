use cli_warden::config::{Effect, PolicyConfig, RawRule};
use cli_warden::patterns::PlainRegex;
use cli_warden::policy::{decide, has_glob_meta, parse_shorthand, PolicyEngine, PolicyError, RuleHit};

fn base_policy() -> PolicyConfig {
    PolicyConfig {
        default: Effect::Deny,
        ask_requires_intent: true,
        allow_hook_timeout_secs: 1800,
        allow_hook: None,
        allow: Vec::new(),
        deny: Vec::new(),
        ask: Vec::new(),
    }
}

fn empty_rule(effect: Effect, cmd: &str) -> RawRule {
    RawRule {
        effect,
        cmd: cmd.to_string(),
        args_exact: None,
        args_prefix: None,
        args_glob: None,
        args_regex: None,
        intent_required: None,
    }
}

fn list(items: &[&str]) -> Vec<String> {
    items.iter().map(|s| s.to_string()).collect()
}

#[test]
fn precedence_exact_over_prefix_over_glob_over_regex() {
    let cfg = base_policy();
    let mut rules = Vec::new();

    let mut regex = empty_rule(Effect::Allow, "demo");
    regex.args_regex = Some(vec![".*".to_string(), ".*".to_string()]);
    rules.push(regex);

    let mut glob = empty_rule(Effect::Deny, "demo");
    glob.args_glob = Some(vec!["*".to_string(), "*".to_string()]);
    rules.push(glob);

    let mut prefix = empty_rule(Effect::Ask, "demo");
    prefix.args_prefix = Some(vec!["alpha".to_string()]);
    rules.push(prefix);

    let mut exact = empty_rule(Effect::Audit, "demo");
    exact.args_exact = Some(vec!["alpha".to_string(), "beta".to_string()]);
    rules.push(exact);

    let engine = PolicyEngine::from_config(&cfg, &rules).expect("build policy");
    let args = vec!["alpha".to_string(), "beta".to_string()];
    let decision = engine.evaluate("demo", &args).expect("evaluate");
    assert_eq!(decision.effect, Effect::Audit);
    assert_eq!(
        decision.matched_rule.as_ref().map(|m| m.matcher.as_str()),
        Some("exact")
    );

    let args = vec!["alpha".to_string(), "zzz".to_string()];
    let decision = engine.evaluate("demo", &args).expect("evaluate");
    assert_eq!(decision.effect, Effect::Ask);
    assert_eq!(
        decision.matched_rule.as_ref().map(|m| m.matcher.as_str()),
        Some("prefix")
    );

    let args = vec!["x".to_string(), "y".to_string()];
    let decision = engine.evaluate("demo", &args).expect("evaluate");
    assert_eq!(decision.effect, Effect::Deny);
    assert_eq!(
        decision.matched_rule.as_ref().map(|m| m.matcher.as_str()),
        Some("glob")
    );
}

#[test]
fn conflicting_tied_rules_are_rejected_at_load() {
    let cfg = base_policy();
    let mut a = empty_rule(Effect::Allow, "demo");
    a.args_prefix = Some(vec!["calendar".to_string(), "add".to_string()]);
    let mut b = empty_rule(Effect::Deny, "demo");
    b.args_prefix = Some(vec!["calendar".to_string(), "add".to_string()]);

    let err = PolicyEngine::from_config(&cfg, &[a, b]).expect_err("must reject conflicts");
    assert!(
        err.message().contains("conflicting tied rules"),
        "unexpected error: {}",
        err.message()
    );
    assert_eq!(
        err.message(),
        "conflicting tied rules for command 'demo': rules[0] vs rules[1]"
    );
}

#[test]
fn ask_intent_can_be_overridden_per_rule() {
    let cfg = base_policy();
    let mut ask_no_intent = empty_rule(Effect::Ask, "demo");
    ask_no_intent.args_prefix = Some(vec!["sync".to_string()]);
    ask_no_intent.intent_required = Some(false);

    let engine = PolicyEngine::from_config(&cfg, &[ask_no_intent]).expect("build policy");
    let decision = engine
        .evaluate("demo", &["sync".to_string(), "now".to_string()])
        .expect("evaluate");

    assert_eq!(decision.effect, Effect::Ask);
    assert!(
        !decision.intent_required,
        "rule-level override should disable global ask_requires_intent"
    );
}

#[test]
fn default_decides_without_a_rule() {
    let mut cfg = base_policy();
    let engine = PolicyEngine::from_config(&cfg, &[]).expect("build policy");
    let decision = engine.evaluate("demo", &list(&["a"])).expect("evaluate");
    assert_eq!(decision.effect, Effect::Deny);
    assert!(!decision.intent_required);
    assert!(decision.matched_rule.is_none());

    cfg.default = Effect::Ask;
    let engine = PolicyEngine::from_config(&cfg, &[]).expect("build policy");
    let decision = engine.evaluate("demo", &[]).expect("evaluate");
    assert_eq!(decision.effect, Effect::Ask);
    assert!(decision.intent_required);
}

#[test]
fn longer_prefix_wins() {
    let mut cfg = base_policy();
    cfg.allow = list(&["gog calendar"]);
    cfg.deny = list(&["gog calendar delete"]);
    cfg.ask = list(&["gog calendar delete all"]);
    let engine = PolicyEngine::from_config(&cfg, &[]).expect("build policy");
    let allowed = engine
        .evaluate("gog", &list(&["calendar", "list"]))
        .expect("evaluate");
    assert_eq!(allowed.effect, Effect::Allow);
    let rule = allowed.matched_rule.expect("matched");
    assert_eq!(rule.source, "policy.allow[0]");
    assert_eq!(rule.specificity, 3);
    assert_eq!(rule.arg_len, 1);
    let denied = engine
        .evaluate("gog", &list(&["calendar", "delete", "x"]))
        .expect("evaluate");
    assert_eq!(denied.effect, Effect::Deny);
    let asked = engine
        .evaluate("gog", &list(&["calendar", "delete", "all"]))
        .expect("evaluate");
    assert_eq!(asked.effect, Effect::Ask);
    assert!(asked.intent_required);
}

#[test]
fn shorthand_star_is_a_prefix_and_other_patterns_are_globs() {
    let rule = parse_shorthand("camoufox *", Effect::Allow).expect("parse");
    assert_eq!(rule.cmd, "camoufox");
    assert_eq!(rule.args_prefix, Some(Vec::new()));
    assert_eq!(rule.args_glob, None);

    let rule = parse_shorthand("  gog   calendar\tadd ", Effect::Ask).expect("parse");
    assert_eq!(rule.cmd, "gog");
    assert_eq!(rule.args_prefix, Some(list(&["calendar", "add"])));

    let rule = parse_shorthand("gog cal* list", Effect::Deny).expect("parse");
    assert_eq!(rule.args_glob, Some(list(&["cal*", "list"])));
    assert_eq!(rule.args_prefix, None);

    let err = parse_shorthand("   ", Effect::Deny).expect_err("no word");
    assert_eq!(err.message(), "empty shorthand rule");
}

#[test]
fn glob_characters_are_recognised() {
    assert!(has_glob_meta("a*"));
    assert!(has_glob_meta("a?b"));
    assert!(has_glob_meta("[ab]"));
    assert!(!has_glob_meta("ab]"));
    assert!(!has_glob_meta(""));
}

#[test]
fn glob_rules_match_token_by_token() {
    let mut rule = empty_rule(Effect::Allow, "demo");
    rule.args_glob = Some(list(&["cal*", "[ab]?"]));
    let engine = PolicyEngine::from_config(&base_policy(), &[rule]).expect("build policy");
    let yes = engine
        .evaluate("demo", &list(&["calendar", "b1"]))
        .expect("evaluate");
    assert_eq!(yes.effect, Effect::Allow);
    assert_eq!(yes.matched_rule.expect("matched").matcher, "glob");
    for args in [
        list(&["calendar", "c1"]),
        list(&["calendar"]),
        list(&["calendar", "b1", "x"]),
        list(&["other", "b1"]),
    ] {
        let no = engine.evaluate("demo", &args).expect("evaluate");
        assert_eq!(no.effect, Effect::Deny);
    }
}

#[test]
fn regex_rules_match_token_by_token() {
    let mut rule = empty_rule(Effect::Allow, "demo");
    rule.args_regex = Some(list(&["^v[0-9]+$"]));
    let engine = PolicyEngine::from_config(&base_policy(), &[rule]).expect("build policy");
    let yes = engine.evaluate("demo", &list(&["v12"])).expect("evaluate");
    assert_eq!(yes.effect, Effect::Allow);
    let rule = yes.matched_rule.expect("matched");
    assert_eq!(rule.matcher, "regex");
    assert_eq!(rule.specificity, 1);
    let no = engine.evaluate("demo", &list(&["v12x"])).expect("evaluate");
    assert_eq!(no.effect, Effect::Deny);
}

#[test]
fn expressions_are_case_sensitive_and_keep_their_text() {
    let expression = PlainRegex::new("a.c").expect("compiled");
    assert_eq!(expression.as_str(), "a.c");
    assert!(expression.is_match("xabcx"));
    assert!(!expression.is_match("ABC"));
    assert!(!expression.is_match("a\nc"));
    assert!(PlainRegex::new("(").is_err());
}

#[test]
fn bad_rules_are_refused() {
    let mut rule = empty_rule(Effect::Allow, "demo");
    rule.args_glob = Some(list(&["a", "***"]));
    let err = PolicyEngine::from_config(&base_policy(), &[rule]).expect_err("bad glob");
    assert!(matches!(&err, PolicyError::InvalidGlob { token } if token == "***"));
    assert_eq!(err.message(), "invalid glob '***'");

    let mut rule = empty_rule(Effect::Allow, "demo");
    rule.args_regex = Some(list(&["("]));
    let err = PolicyEngine::from_config(&base_policy(), &[rule]).expect_err("bad regex");
    assert_eq!(err.message(), "invalid regex '('");

    let mut rule = empty_rule(Effect::Allow, "demo");
    rule.args_exact = Some(list(&["a"]));
    rule.args_prefix = Some(list(&["a"]));
    let err = PolicyEngine::from_config(&base_policy(), &[rule]).expect_err("two matchers");
    assert_eq!(err.message(), "rule for 'demo' has multiple matcher types");

    let mut cfg = base_policy();
    cfg.deny = list(&["gog", " "]);
    let err = PolicyEngine::from_config(&cfg, &[]).expect_err("empty entry");
    assert!(matches!(err, PolicyError::EmptyShorthand));
}

#[test]
fn rules_that_differ_but_overlap_cannot_decide() {
    let mut a = empty_rule(Effect::Allow, "demo");
    a.args_glob = Some(list(&["a*"]));
    let mut b = empty_rule(Effect::Deny, "demo");
    b.args_glob = Some(list(&["*b"]));
    let engine = PolicyEngine::from_config(&base_policy(), &[a, b]).expect("build policy");
    let err = engine
        .evaluate("demo", &list(&["ab"]))
        .expect_err("undecided");
    assert_eq!(
        err.message(),
        "conflicting policy rules for cmd 'demo' at same specificity: [\"rules[0]\", \"rules[1]\"]"
    );
    let fine = engine.evaluate("demo", &list(&["ax"])).expect("evaluate");
    assert_eq!(fine.effect, Effect::Allow);
}

#[test]
fn same_rule_with_the_same_effect_is_no_conflict() {
    let mut a = empty_rule(Effect::Allow, "demo");
    a.args_exact = Some(list(&["x"]));
    let mut b = empty_rule(Effect::Allow, "demo");
    b.args_exact = Some(list(&["x"]));
    let engine = PolicyEngine::from_config(&base_policy(), &[a, b]).expect("build policy");
    let decision = engine.evaluate("demo", &list(&["x"])).expect("evaluate");
    assert_eq!(decision.matched_rule.expect("matched").source, "rules[0]");
}

#[test]
fn literal_rules_decide_even_where_they_overlap() {
    let rule = |effect, exact: Option<&[&str]>, prefix: Option<&[&str]>| {
        let mut rule = empty_rule(effect, "demo");
        rule.args_exact = exact.map(list);
        rule.args_prefix = prefix.map(list);
        rule
    };
    let rules = [
        rule(Effect::Allow, None, Some(&[])),
        rule(Effect::Deny, None, Some(&["a"])),
        rule(Effect::Ask, None, Some(&["a", "b"])),
        rule(Effect::Audit, Some(&["a", "b"]), None),
    ];
    let engine = PolicyEngine::from_config(&base_policy(), &rules).expect("build policy");
    for (args, effect) in [
        (list(&[]), Effect::Allow),
        (list(&["x"]), Effect::Allow),
        (list(&["a"]), Effect::Deny),
        (list(&["a", "x"]), Effect::Deny),
        (list(&["a", "b"]), Effect::Audit),
        (list(&["a", "b", "c"]), Effect::Ask),
    ] {
        let decision = engine.evaluate("demo", &args).expect("evaluate");
        assert_eq!(decision.effect, effect, "{args:?}");
        assert_eq!(decision.intent_required, effect == Effect::Ask);
    }
}

#[test]
fn decision_follows_the_most_specific_hit() {
    let hit = |effect, specificity, arg_len, source: &str| RuleHit {
        effect,
        intent_required: None,
        source: source.to_string(),
        matcher: "prefix".to_string(),
        specificity,
        arg_len,
    };
    let hits = [
        hit(Effect::Deny, 3, 1, "one"),
        hit(Effect::Ask, 3, 2, "two"),
        hit(Effect::Deny, 2, 9, "three"),
    ];
    let decision = decide(Effect::Allow, true, "demo", &hits).expect("decide");
    assert_eq!(decision.effect, Effect::Ask);
    assert!(decision.intent_required);
    assert_eq!(decision.matched_rule.expect("matched").source, "two");
}

#[test]
fn policy_config_defaults() {
    let cfg = PolicyConfig::default();
    assert_eq!(cfg.default, Effect::Deny);
    assert!(!cfg.ask_requires_intent);
    assert_eq!(cfg.allow_hook_timeout_secs, 1800);
    assert_eq!(cli_warden::config::default_effect(), Effect::Deny);
    assert_eq!(cli_warden::config::default_allow_hook_timeout_secs(), 1800);
}
