//! Tools for the author of a policy: they check it, and show what it decides.

use crate::config::{opt_text, Effect, PolicyConfig, RawRule};
use crate::policy::{raw_views, Decision, PolicyEngine, PolicyError};
use crate::policy_model::{loaded, DecisionView, PolicyErrorView, PolicyView, RuleView};
use crate::server::effect_name;
use crate::server_model::effect_text;
use crate::text::{decimal, decimal_digits, texts, trim, trimmed};
use vstd::prelude::*;
use vstd::string::*;

verus! {

/// How a list of texts is written with quotes and escapes.
pub uninterp spec fn quoted_list(list: Seq<Seq<char>>) -> Seq<char>;

/// Calls `format!` of std with `{:?}` on a list of texts: each is written in quotes and with
/// escapes, in brackets and with commas between them.
#[verifier::external_body]
fn quote_list(list: &[String]) -> (s: String)
    ensures
        s@ == quoted_list(texts(list@)),
{
    format!("{:?}", list)
}

/// What is said of a policy that is refused, or cannot decide.
pub open spec fn policy_refusal(error: PolicyErrorView) -> Seq<char> {
    match error {
        PolicyErrorView::EmptyShorthand => "empty shorthand rule"@,
        PolicyErrorView::MultipleMatchers { cmd } => "rule for '"@ + cmd
            + "' has multiple matcher types"@,
        PolicyErrorView::InvalidGlob { token } => "invalid glob '"@ + token + "'"@,
        PolicyErrorView::InvalidRegex { token } => "invalid regex '"@ + token + "'"@,
        PolicyErrorView::TiedRules { cmd, first, second } =>
        "conflicting tied rules for command '"@ + cmd + "': "@ + first + " vs "@ + second,
        PolicyErrorView::AmbiguousMatch { cmd, sources } =>
        "conflicting policy rules for cmd '"@ + cmd + "' at same specificity: "@ + quoted_list(
            sources,
        ),
    }
}

impl PolicyError {
    /// What is said of a policy that is refused, or cannot decide.
    pub fn message(&self) -> (text: String)
        ensures
            text@ == policy_refusal(self@),
    {
        match self {
            PolicyError::EmptyShorthand => "empty shorthand rule".to_owned(),
            PolicyError::MultipleMatchers { cmd } => {
                let mut text = "rule for '".to_owned();
                text.append(cmd.as_str());
                text.append("' has multiple matcher types");
                text
            },
            PolicyError::InvalidGlob { token } => {
                let mut text = "invalid glob '".to_owned();
                text.append(token.as_str());
                text.append("'");
                text
            },
            PolicyError::InvalidRegex { token } => {
                let mut text = "invalid regex '".to_owned();
                text.append(token.as_str());
                text.append("'");
                text
            },
            PolicyError::TiedRules { cmd, first, second } => {
                let mut text = "conflicting tied rules for command '".to_owned();
                text.append(cmd.as_str());
                text.append("': ");
                text.append(first.as_str());
                text.append(" vs ");
                text.append(second.as_str());
                text
            },
            PolicyError::AmbiguousMatch { cmd, sources } => {
                let mut text = "conflicting policy rules for cmd '".to_owned();
                text.append(cmd.as_str());
                text.append("' at same specificity: ");
                let list = quote_list(sources.as_slice());
                text.append(list.as_str());
                text
            },
        }
    }
}

impl PolicyEngine {
    /// Why the policy cannot decide on a command line, where it cannot.
    pub fn undecided(&self, cmd: &str, args: &[String]) -> (why: Option<String>)
        ensures
            match self@.decides(cmd@, texts(args@)) {
                Ok(_) => why is None,
                Err(e) => why matches Some(text) && text@ == policy_refusal(e),
            },
    {
        match self.evaluate(cmd, args) {
            Ok(_) => None,
            Err(e) => Some(e.message()),
        }
    }
}

/// A line that names a value.
pub open spec fn named(name: Seq<char>, value: Seq<char>) -> Seq<char> {
    name + ": "@ + value
}

fn line(name: &str, value: &str) -> (s: String)
    ensures
        s@ == named(name@, value@),
{
    let mut s = name.to_owned();
    s.append(": ");
    s.append(value);
    s
}

/// How a truth value is written.
pub open spec fn bool_text(b: bool) -> Seq<char> {
    if b {
        "true"@
    } else {
        "false"@
    }
}

fn bool_name(b: bool) -> (s: &'static str)
    ensures
        s@ == bool_text(b),
{
    if b {
        "true"
    } else {
        "false"
    }
}

/// Whether a request lacks the intent that the policy asks for.
pub open spec fn lacks_intent(decision: DecisionView, intent: Seq<char>) -> bool {
    decision.effect == Effect::Ask && decision.intent_required && trimmed(intent).len() == 0
}

fn is_lacking_intent(decision: &Decision, intent: &str) -> (r: bool)
    ensures
        r == lacks_intent(decision@, intent@),
{
    decision.effect == Effect::Ask && decision.intent_required && trim(intent).as_str().is_empty()
}

/// What is printed of a decision in short.
pub open spec fn short_lines(decision: DecisionView, intent: Seq<char>) -> Seq<Seq<char>> {
    let lines = seq![
        named("effect"@, effect_text(decision.effect)),
        named("intent_required"@, bool_text(decision.intent_required)),
        named(
            "matched_rule"@,
            match decision.matched_rule {
                Some(rule) => rule.source,
                None => "<default>"@,
            },
        ),
    ];
    if lacks_intent(decision, intent) {
        lines.push("would_deny: missing intent"@)
    } else {
        lines
    }
}

/// What is printed of a decision and of how it came about.
pub open spec fn long_lines(
    cmd: Seq<char>,
    args: Seq<Seq<char>>,
    decision: DecisionView,
    intent: Seq<char>,
) -> Seq<Seq<char>> {
    let head = seq![
        named("cmd"@, cmd),
        named("args"@, quoted_list(args)),
        named("effect"@, effect_text(decision.effect)),
        named("intent_required"@, bool_text(decision.intent_required)),
    ];
    let matched = match decision.matched_rule {
        Some(rule) => seq![
            named("matched_source"@, rule.source),
            named("matcher"@, rule.matcher),
            named("specificity"@, decimal_digits(rule.specificity)),
            named("arg_len"@, decimal_digits(rule.arg_len)),
        ],
        None => seq!["matched_source: <default policy>"@],
    };
    let result = if lacks_intent(decision, intent) {
        "effective_result: deny (missing intent)"@
    } else {
        named("effective_result"@, effect_text(decision.effect))
    };
    (head + matched).push(result)
}

fn add_line(lines: &mut Vec<String>, line: String)
    ensures
        texts(final(lines)@) == texts(old(lines)@).push(line@),
{
    let ghost before = lines@;
    lines.push(line);
    assert(texts(before.push(line)) =~= texts(before).push(line@));
}

/// Says that a policy can be loaded, or why it cannot.
pub fn run_lint(cfg: &PolicyConfig, rules: &[RawRule]) -> (r: Result<String, PolicyError>)
    ensures
        match (
            r,
            loaded(texts(cfg.allow@), texts(cfg.deny@), texts(cfg.ask@), raw_views(rules@)),
        ) {
            (Ok(text), Ok(_)) => text@ == "OK: policy config parsed and validated"@,
            (Err(e), Err(model)) => e@ == model,
            _ => false,
        },
{
    match PolicyEngine::from_config(cfg, rules) {
        Ok(_) => Ok("OK: policy config parsed and validated".to_owned()),
        Err(e) => Err(e),
    }
}

/// The policy of a configuration whose rules are loaded.
pub open spec fn policy_of(cfg: PolicyConfig, rules: Seq<RuleView>) -> PolicyView {
    PolicyView {
        default: cfg.default,
        ask_requires_intent: cfg.ask_requires_intent,
        allow_hook_timeout_secs: cfg.allow_hook_timeout_secs,
        allow_hook: opt_text(cfg.allow_hook),
        rules,
    }
}

/// What a configuration decides on a command line, where it can be loaded.
pub open spec fn config_decides(
    cfg: PolicyConfig,
    rules: Seq<RawRule>,
    cmd: Seq<char>,
    args: Seq<Seq<char>>,
) -> Result<DecisionView, PolicyErrorView> {
    match loaded(texts(cfg.allow@), texts(cfg.deny@), texts(cfg.ask@), raw_views(rules)) {
        Ok(ready) => policy_of(cfg, ready).decides(cmd, args),
        Err(e) => Err(e),
    }
}

fn decide_by_config(cfg: &PolicyConfig, rules: &[RawRule], cmd: &str, args: &[String]) -> (r: Result<
    Decision,
    PolicyError,
>)
    ensures
        match (r, config_decides(*cfg, rules@, cmd@, texts(args@))) {
            (Ok(d), Ok(model)) => d@ == model,
            (Err(e), Err(model)) => e@ == model,
            _ => false,
        },
{
    match PolicyEngine::from_config(cfg, rules) {
        Ok(engine) => engine.evaluate(cmd, args),
        Err(e) => Err(e),
    }
}

/// Shows in short what a policy decides on a command line.
pub fn run_test(
    cfg: &PolicyConfig,
    rules: &[RawRule],
    cmd: &str,
    args: &[String],
    intent: &str,
) -> (r: Result<Vec<String>, PolicyError>)
    ensures
        match (r, config_decides(*cfg, rules@, cmd@, texts(args@))) {
            (Ok(lines), Ok(d)) => texts(lines@) == short_lines(d, intent@),
            (Err(e), Err(model)) => e@ == model,
            _ => false,
        },
{
    let decision = match decide_by_config(cfg, rules, cmd, args) {
        Ok(decision) => decision,
        Err(e) => {
            return Err(e);
        },
    };
    let mut lines: Vec<String> = Vec::new();
    add_line(&mut lines, line("effect", effect_name(decision.effect)));
    add_line(&mut lines, line("intent_required", bool_name(decision.intent_required)));
    let source = match &decision.matched_rule {
        Some(rule) => rule.source.clone(),
        None => "<default>".to_owned(),
    };
    add_line(&mut lines, line("matched_rule", source.as_str()));
    if is_lacking_intent(&decision, intent) {
        add_line(&mut lines, "would_deny: missing intent".to_owned());
    }
    assert(texts(lines@) =~= short_lines(decision@, intent@));
    Ok(lines)
}

/// Shows what a policy decides on a command line, and how it comes to that.
pub fn run_explain(
    cfg: &PolicyConfig,
    rules: &[RawRule],
    cmd: &str,
    args: &[String],
    intent: &str,
) -> (r: Result<Vec<String>, PolicyError>)
    ensures
        match (r, config_decides(*cfg, rules@, cmd@, texts(args@))) {
            (Ok(lines), Ok(d)) => texts(lines@) == long_lines(cmd@, texts(args@), d, intent@),
            (Err(e), Err(model)) => e@ == model,
            _ => false,
        },
{
    let decision = match decide_by_config(cfg, rules, cmd, args) {
        Ok(decision) => decision,
        Err(e) => {
            return Err(e);
        },
    };
    let mut lines: Vec<String> = Vec::new();
    add_line(&mut lines, line("cmd", cmd));
    let list = quote_list(args);
    add_line(&mut lines, line("args", list.as_str()));
    add_line(&mut lines, line("effect", effect_name(decision.effect)));
    add_line(&mut lines, line("intent_required", bool_name(decision.intent_required)));
    match &decision.matched_rule {
        Some(rule) => {
            add_line(&mut lines, line("matched_source", rule.source.as_str()));
            add_line(&mut lines, line("matcher", rule.matcher.as_str()));
            let specificity = decimal(rule.specificity as u64);
            add_line(&mut lines, line("specificity", specificity.as_str()));
            let arg_len = decimal(rule.arg_len as u64);
            add_line(&mut lines, line("arg_len", arg_len.as_str()));
        },
        None => {
            add_line(&mut lines, "matched_source: <default policy>".to_owned());
        },
    }
    if is_lacking_intent(&decision, intent) {
        add_line(&mut lines, "effective_result: deny (missing intent)".to_owned());
    } else {
        add_line(&mut lines, line("effective_result", effect_name(decision.effect)));
    }
    assert(texts(lines@) =~= long_lines(cmd@, texts(args@), decision@, intent@));
    Ok(lines)
}

} // verus!
