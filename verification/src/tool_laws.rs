//! What the policy tools show.

use crate::config::{Effect, PolicyConfig, RawRule};
use crate::execute_laws::{lemma_says_nothing, says_nothing};
use crate::policy::raw_views;
use crate::policy_model::{loaded, DecisionView, PolicyErrorView, PolicyView};
use crate::policy_tool::{
    config_decides, lacks_intent, long_lines, policy_refusal, quoted_list, short_lines,
};
use crate::text::{decimal_digits, texts};
use vstd::prelude::*;

verus! {

/// A configuration that loads decides as the policy with its rules and its settings does, and one
/// that does not load says why.
pub proof fn law_configuration_decides_by_its_rules_and_settings(
    cfg: PolicyConfig,
    rules: Seq<RawRule>,
    cmd: Seq<char>,
    args: Seq<Seq<char>>,
)
    ensures
        match loaded(texts(cfg.allow@), texts(cfg.deny@), texts(cfg.ask@), raw_views(rules)) {
            Ok(ready) => config_decides(cfg, rules, cmd, args) == (PolicyView {
                default: cfg.default,
                ask_requires_intent: cfg.ask_requires_intent,
                allow_hook_timeout_secs: cfg.allow_hook_timeout_secs,
                allow_hook: match cfg.allow_hook {
                    Some(path) => Some(path@),
                    None => None,
                },
                rules: ready,
            }).decides(cmd, args),
            Err(e) => config_decides(cfg, rules, cmd, args) == Err::<DecisionView, PolicyErrorView>(
                e,
            ),
        },
{
}

/// A request lacks its intent where it is to be asked about, has to state an intent, and states
/// none but white space.
pub proof fn law_intent_is_lacking_where_it_says_nothing(
    decision: DecisionView,
    intent: Seq<char>,
)
    ensures
        lacks_intent(decision, intent) <==> decision.effect == Effect::Ask
            && decision.intent_required && says_nothing(intent),
{
    lemma_says_nothing(intent);
}

/// The name of an effect, as it is shown.
pub open spec fn shown(effect: Effect) -> Seq<char> {
    match effect {
        Effect::Allow => "Allow"@,
        Effect::Deny => "Deny"@,
        Effect::Ask => "Ask"@,
        Effect::Audit => "Audit"@,
    }
}

/// In short, a decision is shown by its effect, by whether an intent is required, and by the
/// place of the rule that decided; a further line says where the intent is missing.
pub proof fn law_decision_is_shown_in_short(decision: DecisionView, intent: Seq<char>)
    ensures
        ({
            let lines = short_lines(decision, intent);
            let missing = decision.effect == Effect::Ask && decision.intent_required
                && says_nothing(intent);
            &&& lines.len() == if missing {
                4int
            } else {
                3
            }
            &&& lines[0] == "effect"@ + ": "@ + shown(decision.effect)
            &&& lines[1] == "intent_required"@ + ": "@ + if decision.intent_required {
                "true"@
            } else {
                "false"@
            }
            &&& decision.matched_rule matches Some(rule) ==> lines[2] == "matched_rule"@ + ": "@
                + rule.source
            &&& decision.matched_rule is None ==> lines[2] == "matched_rule"@ + ": "@
                + "<default>"@
            &&& missing ==> lines[3] == "would_deny: missing intent"@
        }),
{
    lemma_says_nothing(intent);
}

/// At length, the command line is shown, the effect, whether an intent is required, the rule that
/// decided with the way it compares, or that the default did, and what comes of the request.
pub proof fn law_decision_is_shown_at_length(
    cmd: Seq<char>,
    args: Seq<Seq<char>>,
    decision: DecisionView,
    intent: Seq<char>,
)
    ensures
        ({
            let lines = long_lines(cmd, args, decision, intent);
            let missing = decision.effect == Effect::Ask && decision.intent_required
                && says_nothing(intent);
            &&& lines[0] == "cmd"@ + ": "@ + cmd
            &&& lines[1] == "args"@ + ": "@ + quoted_list(args)
            &&& lines[2] == "effect"@ + ": "@ + shown(decision.effect)
            &&& lines[3] == "intent_required"@ + ": "@ + if decision.intent_required {
                "true"@
            } else {
                "false"@
            }
            &&& decision.matched_rule matches Some(rule) ==> {
                &&& lines.len() == 9
                &&& lines[4] == "matched_source"@ + ": "@ + rule.source
                &&& lines[5] == "matcher"@ + ": "@ + rule.matcher
                &&& lines[6] == "specificity"@ + ": "@ + decimal_digits(rule.specificity)
                &&& lines[7] == "arg_len"@ + ": "@ + decimal_digits(rule.arg_len)
            }
            &&& decision.matched_rule is None ==> {
                &&& lines.len() == 6
                &&& lines[4] == "matched_source: <default policy>"@
            }
            &&& lines.last() == if missing {
                "effective_result: deny (missing intent)"@
            } else {
                "effective_result"@ + ": "@ + shown(decision.effect)
            }
        }),
{
    lemma_says_nothing(intent);
}

/// The two ways to show a decision agree on its effect and on whether an intent is required, and
/// both say so where the intent is missing.
pub proof fn law_short_and_long_agree(
    cmd: Seq<char>,
    args: Seq<Seq<char>>,
    decision: DecisionView,
    intent: Seq<char>,
)
    ensures
        short_lines(decision, intent)[0] == long_lines(cmd, args, decision, intent)[2],
        short_lines(decision, intent)[1] == long_lines(cmd, args, decision, intent)[3],
        short_lines(decision, intent).len() == 4 ==> long_lines(
            cmd,
            args,
            decision,
            intent,
        ).last() == "effective_result: deny (missing intent)"@,
{
    law_decision_is_shown_in_short(decision, intent);
    law_decision_is_shown_at_length(cmd, args, decision, intent);
}

/// What is said of a policy that is refused, or cannot decide, names what is wrong with it.
pub proof fn law_refusal_names_what_is_wrong(
    cmd: Seq<char>,
    token: Seq<char>,
    first: Seq<char>,
    second: Seq<char>,
    sources: Seq<Seq<char>>,
)
    ensures
        policy_refusal(PolicyErrorView::EmptyShorthand) == "empty shorthand rule"@,
        policy_refusal(PolicyErrorView::MultipleMatchers { cmd }) == "rule for '"@ + cmd
            + "' has multiple matcher types"@,
        policy_refusal(PolicyErrorView::InvalidGlob { token }) == "invalid glob '"@ + token + "'"@,
        policy_refusal(PolicyErrorView::InvalidRegex { token }) == "invalid regex '"@ + token
            + "'"@,
        policy_refusal(PolicyErrorView::TiedRules { cmd, first, second })
            == "conflicting tied rules for command '"@ + cmd + "': "@ + first + " vs "@ + second,
        policy_refusal(PolicyErrorView::AmbiguousMatch { cmd, sources })
            == "conflicting policy rules for cmd '"@ + cmd + "' at same specificity: "@
            + quoted_list(sources),
{
}

} // verus!
