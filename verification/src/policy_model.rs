//! The meaning of a policy: what its rules are, and which of them decides.

use crate::config::{Effect, RawRuleView};
use crate::patterns::{glob_compiles, glob_matches, regex_compiles, regex_matches};
use crate::text::{decimal_digits, words};
use vstd::prelude::*;

verus! {

/// Whether a token of a shorthand rule has a character with a meaning in a shell pattern.
pub open spec fn glob_meta(s: Seq<char>) -> bool {
    s.contains('*') || s.contains('?') || s.contains('[')
}

/// Whether the last of the tokens is a lone star and no other has a character with a meaning
/// in a shell pattern.
pub open spec fn trailing_star(args: Seq<Seq<char>>) -> bool {
    &&& args.len() > 0
    &&& args.last() == seq!['*']
    &&& forall|i: int| 0 <= i < args.len() - 1 ==> !glob_meta(#[trigger] args[i])
}

/// Whether a token has a character with a meaning in a shell pattern.
pub open spec fn any_glob_meta(args: Seq<Seq<char>>) -> bool {
    exists|i: int| 0 <= i < args.len() && glob_meta(#[trigger] args[i])
}

/// The rule that a prefix of arguments makes.
pub open spec fn prefix_rule(
    effect: Effect,
    cmd: Seq<char>,
    prefix: Seq<Seq<char>>,
) -> RawRuleView {
    RawRuleView {
        effect,
        cmd,
        args_exact: None,
        args_prefix: Some(prefix),
        args_glob: None,
        args_regex: None,
        intent_required: None,
    }
}

/// The rule that a shorthand entry stands for: its first word is the command. The words that
/// follow are a prefix of the arguments, with or without a lone star behind them, unless one of
/// them has a character with a meaning in a shell pattern: then each is a pattern for one
/// argument. An entry without a word stands for none.
pub open spec fn shorthand(entry: Seq<char>, effect: Effect) -> Option<RawRuleView> {
    let tokens = words(entry);
    if tokens.len() == 0 {
        None
    } else {
        let cmd = tokens[0];
        let args = tokens.skip(1);
        if trailing_star(args) {
            Some(prefix_rule(effect, cmd, args.drop_last()))
        } else if any_glob_meta(args) {
            Some(
                RawRuleView {
                    effect,
                    cmd,
                    args_exact: None,
                    args_prefix: None,
                    args_glob: Some(args),
                    args_regex: None,
                    intent_required: None,
                },
            )
        } else {
            Some(prefix_rule(effect, cmd, args))
        }
    }
}

/// How a rule compares the arguments of a command.
pub enum MatcherView {
    Exact(Seq<Seq<char>>),
    Prefix(Seq<Seq<char>>),
    Glob(Seq<Seq<char>>),
    Regex(Seq<Seq<char>>),
}

impl MatcherView {
    /// The texts that the arguments are compared with.
    pub open spec fn tokens(self) -> Seq<Seq<char>> {
        match self {
            MatcherView::Exact(v) => v,
            MatcherView::Prefix(v) => v,
            MatcherView::Glob(v) => v,
            MatcherView::Regex(v) => v,
        }
    }

    /// How specific the comparison is: `exact > prefix > glob > regex`.
    pub open spec fn specificity(self) -> nat {
        match self {
            MatcherView::Exact(_) => 4,
            MatcherView::Prefix(_) => 3,
            MatcherView::Glob(_) => 2,
            MatcherView::Regex(_) => 1,
        }
    }

    /// The name of the comparison.
    pub open spec fn name(self) -> Seq<char> {
        match self {
            MatcherView::Exact(_) => "exact"@,
            MatcherView::Prefix(_) => "prefix"@,
            MatcherView::Glob(_) => "glob"@,
            MatcherView::Regex(_) => "regex"@,
        }
    }

    /// Whether the arguments match.
    pub open spec fn accepts(self, args: Seq<Seq<char>>) -> bool {
        match self {
            MatcherView::Exact(v) => args == v,
            MatcherView::Prefix(v) => v.is_prefix_of(args),
            MatcherView::Glob(v) => {
                &&& v.len() == args.len()
                &&& forall|i: int| 0 <= i < v.len() ==> #[trigger] glob_matches(v[i], args[i])
            },
            MatcherView::Regex(v) => {
                &&& v.len() == args.len()
                &&& forall|i: int| 0 <= i < v.len() ==> #[trigger] regex_matches(v[i], args[i])
            },
        }
    }
}

/// A rule that is ready for use, and where it stands in the configuration.
pub struct RuleView {
    pub effect: Effect,
    pub cmd: Seq<char>,
    pub matcher: MatcherView,
    pub intent_required: Option<bool>,
    pub source: Seq<char>,
}

impl RuleView {
    /// Whether the rule speaks of the command line.
    pub open spec fn applies(self, cmd: Seq<char>, args: Seq<Seq<char>>) -> bool {
        self.cmd == cmd && self.matcher.accepts(args)
    }

    /// What the rule contributes where it applies.
    pub open spec fn hit(self) -> HitView {
        HitView {
            effect: self.effect,
            intent_required: self.intent_required,
            source: self.source,
            matcher: self.matcher.name(),
            specificity: self.matcher.specificity(),
            arg_len: self.matcher.tokens().len(),
        }
    }
}

/// A rule that applies to a command line.
pub struct HitView {
    pub effect: Effect,
    pub intent_required: Option<bool>,
    pub source: Seq<char>,
    pub matcher: Seq<char>,
    pub specificity: nat,
    pub arg_len: nat,
}

impl HitView {
    /// Whether the rule is more specific than another: by the kind of its comparison, and within
    /// one kind by the number of arguments that it compares.
    pub open spec fn beats(self, other: HitView) -> bool {
        self.specificity > other.specificity || (self.specificity == other.specificity
            && self.arg_len > other.arg_len)
    }
}

/// What the engine decides.
pub struct DecisionView {
    pub effect: Effect,
    pub intent_required: bool,
    pub matched_rule: Option<MatchedRuleView>,
}

/// The rule that decided.
pub struct MatchedRuleView {
    pub source: Seq<char>,
    pub matcher: Seq<char>,
    pub specificity: nat,
    pub arg_len: nat,
}

/// Why a policy is refused, or cannot decide.
pub enum PolicyErrorView {
    EmptyShorthand,
    MultipleMatchers { cmd: Seq<char> },
    InvalidGlob { token: Seq<char> },
    InvalidRegex { token: Seq<char> },
    TiedRules { cmd: Seq<char>, first: Seq<char>, second: Seq<char> },
    AmbiguousMatch { cmd: Seq<char>, sources: Seq<Seq<char>> },
}

/// The rules that apply to a command line, in the order of the configuration.
pub open spec fn hits(rules: Seq<RuleView>, cmd: Seq<char>, args: Seq<Seq<char>>) -> Seq<HitView>
    decreases rules.len(),
{
    if rules.len() == 0 {
        seq![]
    } else {
        let before = hits(rules.drop_last(), cmd, args);
        if rules.last().applies(cmd, args) {
            before.push(rules.last().hit())
        } else {
            before
        }
    }
}

/// The most specific of the rules that apply: those that none of them beats.
pub open spec fn best_hits(all: Seq<HitView>) -> Seq<HitView> {
    all.filter(|h: HitView| unbeaten(all, h))
}

/// Whether no rule of the list is more specific.
pub open spec fn unbeaten(all: Seq<HitView>, h: HitView) -> bool {
    forall|i: int| 0 <= i < all.len() ==> !(#[trigger] all[i]).beats(h)
}

/// What is decided where the rules of `all` apply: the first of the most specific decides, but
/// where two of these differ in their effect there is no decision. Where no rule applies, the
/// default decides. An intent is required of a request that is to be asked about, as the rule
/// says, or else the policy.
pub open spec fn decision(
    default: Effect,
    ask_requires_intent: bool,
    cmd: Seq<char>,
    all: Seq<HitView>,
) -> Result<DecisionView, PolicyErrorView> {
    let best = best_hits(all);
    if all.len() == 0 {
        Ok(
            DecisionView {
                effect: default,
                intent_required: default == Effect::Ask && ask_requires_intent,
                matched_rule: None,
            },
        )
    } else if exists|i: int| 0 <= i < best.len() && (#[trigger] best[i]).effect != best[0].effect {
        Err(
            PolicyErrorView::AmbiguousMatch {
                cmd,
                sources: best.map_values(|h: HitView| h.source),
            },
        )
    } else {
        let picked = best[0];
        Ok(
            DecisionView {
                effect: picked.effect,
                intent_required: picked.effect == Effect::Ask && match picked.intent_required {
                    Some(required) => required,
                    None => ask_requires_intent,
                },
                matched_rule: Some(
                    MatchedRuleView {
                        source: picked.source,
                        matcher: picked.matcher,
                        specificity: picked.specificity,
                        arg_len: picked.arg_len,
                    },
                ),
            },
        )
    }
}

/// The first of the tokens that is not `ok`.
pub open spec fn first_failing(tokens: Seq<Seq<char>>, ok: spec_fn(Seq<char>) -> bool) -> Option<
    Seq<char>,
>
    decreases tokens.len(),
{
    if tokens.len() == 0 {
        None
    } else if !ok(tokens[0]) {
        Some(tokens[0])
    } else {
        first_failing(tokens.drop_first(), ok)
    }
}

/// In how many ways a rule compares the arguments.
pub open spec fn matcher_count(raw: RawRuleView) -> int {
    (if raw.args_exact is Some { 1int } else { 0 }) + (if raw.args_prefix is Some { 1int } else {
        0
    }) + (if raw.args_glob is Some { 1int } else { 0 }) + (if raw.args_regex is Some {
        1int
    } else {
        0
    })
}

/// How a rule compares the arguments: any will do where it does not say.
pub open spec fn matcher_of(raw: RawRuleView) -> Result<MatcherView, PolicyErrorView> {
    if matcher_count(raw) > 1 {
        Err(PolicyErrorView::MultipleMatchers { cmd: raw.cmd })
    } else if raw.args_exact is Some {
        Ok(MatcherView::Exact(raw.args_exact->0))
    } else if raw.args_prefix is Some {
        Ok(MatcherView::Prefix(raw.args_prefix->0))
    } else if raw.args_glob is Some {
        match first_failing(raw.args_glob->0, |t: Seq<char>| glob_compiles(t)) {
            Some(token) => Err(PolicyErrorView::InvalidGlob { token }),
            None => Ok(MatcherView::Glob(raw.args_glob->0)),
        }
    } else if raw.args_regex is Some {
        match first_failing(raw.args_regex->0, |t: Seq<char>| regex_compiles(t)) {
            Some(token) => Err(PolicyErrorView::InvalidRegex { token }),
            None => Ok(MatcherView::Regex(raw.args_regex->0)),
        }
    } else {
        Ok(MatcherView::Prefix(seq![]))
    }
}

/// The rule that a raw rule makes ready for use.
pub open spec fn compiled(raw: RawRuleView, source: Seq<char>) -> Result<
    RuleView,
    PolicyErrorView,
> {
    match matcher_of(raw) {
        Ok(matcher) => Ok(
            RuleView {
                effect: raw.effect,
                cmd: raw.cmd,
                matcher,
                intent_required: raw.intent_required,
                source,
            },
        ),
        Err(e) => Err(e),
    }
}

/// A raw rule and where it stands in the configuration.
pub struct SourcedRule {
    pub raw: RawRuleView,
    pub source: Seq<char>,
}

/// The place of an entry of a list of the configuration.
pub open spec fn entry_source(list: Seq<char>, index: nat) -> Seq<char> {
    list + "["@ + decimal_digits(index) + "]"@
}

/// The rules of a shorthand list, unless one of its entries has no word.
pub open spec fn shorthand_rules(
    entries: Seq<Seq<char>>,
    effect: Effect,
    list: Seq<char>,
) -> Option<Seq<SourcedRule>> {
    if exists|i: int| 0 <= i < entries.len() && shorthand(#[trigger] entries[i], effect) is None {
        None
    } else {
        Some(
            Seq::new(
                entries.len(),
                |i: int|
                    SourcedRule {
                        raw: shorthand(entries[i], effect)->0,
                        source: entry_source(list, i as nat),
                    },
            ),
        )
    }
}

/// The rules that the configuration writes out.
pub open spec fn advanced_rules(advanced: Seq<RawRuleView>) -> Seq<SourcedRule> {
    Seq::new(
        advanced.len(),
        |i: int| SourcedRule { raw: advanced[i], source: entry_source("rules"@, i as nat) },
    )
}

/// All rules of a configuration, in its order: the shorthand lists and then the rules that it
/// writes out.
pub open spec fn sourced_rules(
    allow: Seq<Seq<char>>,
    deny: Seq<Seq<char>>,
    ask: Seq<Seq<char>>,
    advanced: Seq<RawRuleView>,
) -> Option<Seq<SourcedRule>> {
    match (
        shorthand_rules(allow, Effect::Allow, "policy.allow"@),
        shorthand_rules(deny, Effect::Deny, "policy.deny"@),
        shorthand_rules(ask, Effect::Ask, "policy.ask"@),
    ) {
        (Some(a), Some(d), Some(q)) => Some(a + d + q + advanced_rules(advanced)),
        _ => None,
    }
}

/// The rules ready for use, or what is wrong with the first that is not.
pub open spec fn compile_all(rules: Seq<SourcedRule>) -> Result<Seq<RuleView>, PolicyErrorView>
    decreases rules.len(),
{
    if rules.len() == 0 {
        Ok(seq![])
    } else {
        match compile_all(rules.drop_last()) {
            Err(e) => Err(e),
            Ok(before) => match compiled(rules.last().raw, rules.last().source) {
                Err(e) => Err(e),
                Ok(rule) => Ok(before.push(rule)),
            },
        }
    }
}

/// Whether two rules differ in their effect where neither can win over the other: they
/// compare the same command in the same way.
pub open spec fn tied(a: RuleView, b: RuleView) -> bool {
    a.cmd == b.cmd && a.matcher == b.matcher && a.effect != b.effect
}

/// The first rule from `j` on that is tied with rule `i`.
pub open spec fn tie_of(rules: Seq<RuleView>, i: int, j: int) -> Option<int>
    decreases rules.len() - j,
{
    if j >= rules.len() {
        None
    } else if tied(rules[i], rules[j]) {
        Some(j)
    } else {
        tie_of(rules, i, j + 1)
    }
}

/// The first rule from `i` on that is tied with a later one, and the first of these.
pub open spec fn first_tie(rules: Seq<RuleView>, i: int) -> Option<(int, int)>
    decreases rules.len() - i,
{
    if i >= rules.len() {
        None
    } else {
        match tie_of(rules, i, i + 1) {
            Some(j) => Some((i, j)),
            None => first_tie(rules, i + 1),
        }
    }
}

/// The rules that a configuration loads, or why it is refused: an entry without a word, the
/// first rule that cannot be made ready for use, or the first tie.
pub open spec fn loaded(
    allow: Seq<Seq<char>>,
    deny: Seq<Seq<char>>,
    ask: Seq<Seq<char>>,
    advanced: Seq<RawRuleView>,
) -> Result<Seq<RuleView>, PolicyErrorView> {
    match sourced_rules(allow, deny, ask, advanced) {
        None => Err(PolicyErrorView::EmptyShorthand),
        Some(rules) => match compile_all(rules) {
            Err(e) => Err(e),
            Ok(ready) => match first_tie(ready, 0) {
                Some((i, j)) => Err(
                    PolicyErrorView::TiedRules {
                        cmd: ready[i].cmd,
                        first: ready[i].source,
                        second: ready[j].source,
                    },
                ),
                None => Ok(ready),
            },
        },
    }
}

/// The model of a policy engine.
pub struct PolicyView {
    pub default: Effect,
    pub ask_requires_intent: bool,
    pub allow_hook_timeout_secs: u64,
    pub allow_hook: Option<Seq<char>>,
    pub rules: Seq<RuleView>,
}

impl PolicyView {
    /// What the policy decides on a command line.
    pub open spec fn decides(self, cmd: Seq<char>, args: Seq<Seq<char>>) -> Result<
        DecisionView,
        PolicyErrorView,
    > {
        decision(self.default, self.ask_requires_intent, cmd, hits(self.rules, cmd, args))
    }
}

} // verus!
