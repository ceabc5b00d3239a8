//! What a policy decides, told by the patterns of its rules.

use crate::config::Effect;
use crate::patterns::{glob_matches, regex_matches};
use crate::policy_model::{
    best_hits, decision, hits, unbeaten, DecisionView, HitView, MatchedRuleView, MatcherView, PolicyErrorView,
    PolicyView, RuleView,
};
use vstd::prelude::*;

verus! {

/// Whether one comparison goes before another: an exact one before all others, one by a prefix
/// before those by patterns, one by shell patterns before those by regular expressions, and of
/// two of the same kind the one that names more arguments.
pub open spec fn outranks(a: MatcherView, b: MatcherView) -> bool {
    match (a, b) {
        (MatcherView::Exact(v), MatcherView::Exact(w)) => v.len() > w.len(),
        (MatcherView::Exact(_), _) => true,
        (MatcherView::Prefix(v), MatcherView::Prefix(w)) => v.len() > w.len(),
        (MatcherView::Prefix(_), MatcherView::Glob(_)) => true,
        (MatcherView::Prefix(_), MatcherView::Regex(_)) => true,
        (MatcherView::Glob(v), MatcherView::Glob(w)) => v.len() > w.len(),
        (MatcherView::Glob(_), MatcherView::Regex(_)) => true,
        (MatcherView::Regex(v), MatcherView::Regex(w)) => v.len() > w.len(),
        _ => false,
    }
}

/// A rule applies to a command line of its own command only, and by the words of its kind: an
/// exact one where the arguments are these, one by a prefix where they begin with these, and one
/// by patterns where they are as many as the patterns and each matches its own.
pub proof fn law_rule_applies_by_its_kind(rule: RuleView, cmd: Seq<char>, args: Seq<Seq<char>>)
    ensures
        rule.applies(cmd, args) ==> rule.cmd == cmd,
        rule.matcher matches MatcherView::Exact(v) ==> (rule.applies(cmd, args) <==> rule.cmd == cmd
            && args.len() == v.len() && forall|i: int|
            0 <= i < v.len() ==> #[trigger] v[i] == args[i]),
        rule.matcher matches MatcherView::Prefix(v) ==> (rule.applies(cmd, args) <==> rule.cmd
            == cmd && args.len() >= v.len() && forall|i: int|
            0 <= i < v.len() ==> #[trigger] v[i] == args[i]),
        rule.matcher matches MatcherView::Glob(v) ==> (rule.applies(cmd, args) <==> rule.cmd == cmd
            && args.len() == v.len() && forall|i: int|
            0 <= i < v.len() ==> #[trigger] glob_matches(v[i], args[i])),
        rule.matcher matches MatcherView::Regex(v) ==> (rule.applies(cmd, args) <==> rule.cmd == cmd
            && args.len() == v.len() && forall|i: int|
            0 <= i < v.len() ==> #[trigger] regex_matches(v[i], args[i])),
{
    match rule.matcher {
        MatcherView::Exact(v) => {
            if args.len() == v.len() && (forall|i: int|
                0 <= i < v.len() ==> #[trigger] v[i] == args[i]) {
                assert(args =~= v);
            }
        },
        MatcherView::Prefix(v) => {
            if args.len() >= v.len() {
                if forall|i: int| 0 <= i < v.len() ==> #[trigger] v[i] == args[i] {
                    assert(v =~= args.subrange(0, v.len() as int));
                }
                if v.is_prefix_of(args) {
                    assert forall|i: int| 0 <= i < v.len() implies #[trigger] v[i] == args[i] by {
                        assert(v[i] == args.subrange(0, v.len() as int)[i]);
                    }
                }
            }
        },
        _ => {},
    }
}

/// Patterns are counted: a rule by patterns does not apply to a command line with fewer or with
/// more arguments than it has patterns.
pub proof fn law_patterns_are_counted(rule: RuleView, cmd: Seq<char>, args: Seq<Seq<char>>)
    requires
        ({
            ||| rule.matcher matches MatcherView::Glob(v) && v.len() != args.len()
            ||| rule.matcher matches MatcherView::Regex(v) && v.len() != args.len()
        }),
    ensures
        !rule.applies(cmd, args),
{
}

/// Where every rule for a command has another number of patterns than the command line has
/// arguments, no rule decides: the default of the policy does.
pub proof fn law_default_decides_where_patterns_are_too_few_or_too_many(
    policy: PolicyView,
    cmd: Seq<char>,
    args: Seq<Seq<char>>,
)
    requires
        forall|i: int|
            0 <= i < policy.rules.len() && (#[trigger] policy.rules[i]).cmd == cmd ==> {
                ||| policy.rules[i].matcher matches MatcherView::Glob(v) && v.len() != args.len()
                ||| policy.rules[i].matcher matches MatcherView::Regex(v) && v.len() != args.len()
            },
    ensures
        policy.decides(cmd, args) == Ok::<DecisionView, PolicyErrorView>(
            DecisionView {
                effect: policy.default,
                intent_required: policy.default == Effect::Ask && policy.ask_requires_intent,
                matched_rule: None,
            },
        ),
{
    assert forall|i: int| 0 <= i < policy.rules.len() implies !(
    #[trigger] policy.rules[i]).applies(cmd, args) by {
        if policy.rules[i].cmd == cmd {
            law_patterns_are_counted(policy.rules[i], cmd, args);
        }
    }
    crate::policy_laws::law_default_decides_where_no_rule_applies(
        policy.default,
        policy.ask_requires_intent,
        policy.rules,
        cmd,
        args,
    );
}

/// The rules that decide: those that apply, and before which no other rule goes that applies.
pub open spec fn leading(
    rules: Seq<RuleView>,
    cmd: Seq<char>,
    args: Seq<Seq<char>>,
) -> Seq<RuleView> {
    rules.filter(|r: RuleView| is_leading(rules, cmd, args, r))
}

/// Whether a rule applies, and no other rule that applies goes before it.
pub open spec fn is_leading(
    rules: Seq<RuleView>,
    cmd: Seq<char>,
    args: Seq<Seq<char>>,
    r: RuleView,
) -> bool {
    r.applies(cmd, args) && forall|i: int|
        0 <= i < rules.len() && (#[trigger] rules[i]).applies(cmd, args) ==> !outranks(
            rules[i].matcher,
            r.matcher,
        )
}

proof fn lemma_outranks(a: RuleView, b: RuleView)
    ensures
        outranks(a.matcher, b.matcher) <==> a.hit().beats(b.hit()),
{
}

proof fn lemma_leading(
    rules: Seq<RuleView>,
    part: Seq<RuleView>,
    cmd: Seq<char>,
    args: Seq<Seq<char>>,
)
    requires
        forall|r: RuleView| #[trigger]
            r.applies(cmd, args) ==> (is_leading(rules, cmd, args, r) <==> unbeaten(
                hits(rules, cmd, args),
                r.hit(),
            )),
    ensures
        hits(part, cmd, args).filter(|h: HitView| unbeaten(hits(rules, cmd, args), h))
            == part.filter(|r: RuleView| is_leading(rules, cmd, args, r)).map_values(
            |r: RuleView| r.hit(),
        ),
    decreases part.len(),
{
    reveal(Seq::filter);
    let p = |h: HitView| unbeaten(hits(rules, cmd, args), h);
    let q = |r: RuleView| is_leading(rules, cmd, args, r);
    let f = |r: RuleView| r.hit();
    if part.len() == 0 {
        assert(hits(part, cmd, args).filter(p) =~= part.filter(q).map_values(f));
    } else {
        let init = part.drop_last();
        let last = part.last();
        lemma_leading(rules, init, cmd, args);
        if last.applies(cmd, args) {
            assert(hits(part, cmd, args).drop_last() == hits(init, cmd, args));
            assert(hits(part, cmd, args).last() == last.hit());
        }
        assert(hits(part, cmd, args).filter(p) =~= part.filter(q).map_values(f));
    }
}

proof fn lemma_best_hits_lead(rules: Seq<RuleView>, cmd: Seq<char>, args: Seq<Seq<char>>)
    ensures
        best_hits(hits(rules, cmd, args)) == leading(rules, cmd, args).map_values(
            |r: RuleView| r.hit(),
        ),
{
    let all = hits(rules, cmd, args);
    assert forall|r: RuleView| #[trigger] r.applies(cmd, args) implies (is_leading(
        rules,
        cmd,
        args,
        r,
    ) <==> unbeaten(all, r.hit())) by {
        if is_leading(rules, cmd, args, r) {
            assert forall|k: int| 0 <= k < all.len() implies !(#[trigger] all[k]).beats(r.hit()) by {
                let i = crate::policy_laws::lemma_rule_of_hit(rules, cmd, args, k);
                lemma_outranks(rules[i], r);
            }
        }
        if unbeaten(all, r.hit()) {
            assert forall|i: int|
                0 <= i < rules.len() && (#[trigger] rules[i]).applies(cmd, args) implies !outranks(
                rules[i].matcher,
                r.matcher,
            ) by {
                let k = crate::policy_laws::lemma_hit_of_rule(rules, cmd, args, i);
                assert(!all[k].beats(r.hit()));
                lemma_outranks(rules[i], r);
            }
        }
    }
    lemma_leading(rules, rules, cmd, args);
}

/// The leading rules decide: where they agree, the first of them does, and the decision names it;
/// where two of them differ in their effect there is no decision, and all of them are named in
/// the order of the configuration. Where no rule applies there is no leading rule, and the
/// default decides. A request that is to be asked about has to state its intent as the rule says,
/// or else the policy.
pub proof fn law_leading_rules_decide(policy: PolicyView, cmd: Seq<char>, args: Seq<Seq<char>>)
    ensures
        ({
            let lead = leading(policy.rules, cmd, args);
            let decided = policy.decides(cmd, args);
            &&& (lead.len() == 0 <==> forall|i: int|
                0 <= i < policy.rules.len() ==> !(#[trigger] policy.rules[i]).applies(cmd, args))
            &&& lead.len() == 0 ==> decided == Ok::<DecisionView, PolicyErrorView>(
                DecisionView {
                    effect: policy.default,
                    intent_required: policy.default == Effect::Ask && policy.ask_requires_intent,
                    matched_rule: None,
                },
            )
            &&& lead.len() > 0 && (forall|i: int|
                0 <= i < lead.len() ==> (#[trigger] lead[i]).effect == lead[0].effect)
                ==> decided == Ok::<DecisionView, PolicyErrorView>(
                DecisionView {
                    effect: lead[0].effect,
                    intent_required: lead[0].effect == Effect::Ask && (lead[0].intent_required
                        == Some(true) || lead[0].intent_required is None
                        && policy.ask_requires_intent),
                    matched_rule: Some(
                        match lead[0].matcher {
                            MatcherView::Exact(v) => MatchedRuleView {
                                source: lead[0].source,
                                matcher: "exact"@,
                                specificity: 4,
                                arg_len: v.len(),
                            },
                            MatcherView::Prefix(v) => MatchedRuleView {
                                source: lead[0].source,
                                matcher: "prefix"@,
                                specificity: 3,
                                arg_len: v.len(),
                            },
                            MatcherView::Glob(v) => MatchedRuleView {
                                source: lead[0].source,
                                matcher: "glob"@,
                                specificity: 2,
                                arg_len: v.len(),
                            },
                            MatcherView::Regex(v) => MatchedRuleView {
                                source: lead[0].source,
                                matcher: "regex"@,
                                specificity: 1,
                                arg_len: v.len(),
                            },
                        },
                    ),
                },
            )
            &&& (exists|i: int|
                0 <= i < lead.len() && (#[trigger] lead[i]).effect != lead[0].effect) ==> decided
                == Err::<DecisionView, PolicyErrorView>(
                PolicyErrorView::AmbiguousMatch {
                    cmd,
                    sources: lead.map_values(|r: RuleView| r.source),
                },
            )
        }),
{
    let rules = policy.rules;
    let all = hits(rules, cmd, args);
    let best = best_hits(all);
    let lead = leading(rules, cmd, args);
    lemma_best_hits_lead(rules, cmd, args);
    assert forall|i: int| 0 <= i < lead.len() implies #[trigger] best[i] == lead[i].hit() by {}
    if all.len() > 0 {
        crate::policy_laws::lemma_best_hits_exist(all);
        let k = crate::policy_laws::lemma_rule_of_hit(rules, cmd, args, 0);
        assert(rules[k].applies(cmd, args));
    } else {
        reveal(Seq::filter);
        assert(best.len() == 0);
        assert forall|i: int| 0 <= i < rules.len() implies !(#[trigger] rules[i]).applies(
            cmd,
            args,
        ) by {
            if rules[i].applies(cmd, args) {
                let k = crate::policy_laws::lemma_hit_of_rule(rules, cmd, args, i);
            }
        }
    }
    if exists|i: int| 0 <= i < lead.len() && (#[trigger] lead[i]).effect != lead[0].effect {
        let i = choose|i: int|
            0 <= i < lead.len() && (#[trigger] lead[i]).effect != lead[0].effect;
        assert(best[i].effect != best[0].effect);
        assert(best.map_values(|h: HitView| h.source) =~= lead.map_values(|r: RuleView| r.source));
    }
}

/// A rule that applies and goes before every other rule that applies decides.
pub proof fn law_foremost_rule_decides(
    policy: PolicyView,
    cmd: Seq<char>,
    args: Seq<Seq<char>>,
    k: int,
)
    requires
        0 <= k < policy.rules.len(),
        policy.rules[k].applies(cmd, args),
        forall|i: int|
            0 <= i < policy.rules.len() && i != k && (#[trigger] policy.rules[i]).applies(cmd, args)
                ==> outranks(policy.rules[k].matcher, policy.rules[i].matcher),
    ensures
        policy.decides(cmd, args) matches Ok(d) && d.effect == policy.rules[k].effect
            && d.matched_rule is Some && d.matched_rule->0.source == policy.rules[k].source,
{
    let rules = policy.rules;
    let lead = leading(rules, cmd, args);
    let p = |r: RuleView| is_leading(rules, cmd, args, r);
    law_leading_rules_decide(policy, cmd, args);
    assert(lead.len() > 0);
    assert forall|i: int| 0 <= i < lead.len() implies #[trigger] lead[i] == rules[k] by {
        rules.lemma_filter_pred(p, i);
        assert(rules.filter(p).contains(lead[i]));
        rules.lemma_filter_contains_rev(p, lead[i]);
        let j = choose|j: int| 0 <= j < rules.len() && rules[j] == lead[i];
        if j != k {
            assert(outranks(rules[k].matcher, rules[j].matcher));
        }
    }
}

/// Among the rules that apply, the first of the most specific decides where the others that are
/// as specific have its effect: the decision has the effect of this rule, and names it.
pub proof fn law_first_of_the_most_specific_decides(
    default: Effect,
    ask_requires_intent: bool,
    cmd: Seq<char>,
    all: Seq<HitView>,
    k: int,
)
    requires
        0 <= k < all.len(),
        forall|i: int|
            0 <= i < all.len() ==> {
                ||| (#[trigger] all[i]).specificity < all[k].specificity
                ||| all[i].specificity == all[k].specificity && all[i].arg_len < all[k].arg_len
                ||| all[i].specificity == all[k].specificity && all[i].arg_len == all[k].arg_len
                    && all[i].effect == all[k].effect && i >= k
            },
    ensures
        decision(default, ask_requires_intent, cmd, all) == Ok::<DecisionView, PolicyErrorView>(
            DecisionView {
                effect: all[k].effect,
                intent_required: all[k].effect == Effect::Ask && (all[k].intent_required == Some(
                    true,
                ) || all[k].intent_required is None && ask_requires_intent),
                matched_rule: Some(
                    MatchedRuleView {
                        source: all[k].source,
                        matcher: all[k].matcher,
                        specificity: all[k].specificity,
                        arg_len: all[k].arg_len,
                    },
                ),
            },
        ),
{
    let p = |h: HitView| unbeaten(all, h);
    let best = best_hits(all);
    let before = all.take(k);
    let behind = all.skip(k);
    assert(all == before + behind);
    Seq::filter_distributes_over_add(before, behind, p);
    assert forall|i: int| 0 <= i < before.len() implies !p(#[trigger] before[i]) by {
        assert(before[i] == all[i]);
        assert(all[k].beats(all[i]));
    }
    lemma_filter_none(before, p);
    assert(unbeaten(all, all[k]));
    let rest = behind.drop_first();
    assert(behind == seq![all[k]] + rest);
    Seq::filter_distributes_over_add(seq![all[k]], rest, p);
    assert(seq![all[k]].filter(p) == seq![all[k]]) by {
        reveal(Seq::filter);
        assert(seq![all[k]].drop_last().filter(p) =~= Seq::<HitView>::empty());
    }
    assert(best == seq![all[k]] + rest.filter(p));
    assert(best[0] == all[k]);
    assert forall|i: int| 0 <= i < best.len() implies (#[trigger] best[i]).effect
        == best[0].effect by {
        let j = crate::policy_laws::lemma_best_hit(all, i);
        assert(!all[k].beats(all[j]));
    }
}

proof fn lemma_filter_none(s: Seq<HitView>, p: spec_fn(HitView) -> bool)
    requires
        forall|i: int| 0 <= i < s.len() ==> !p(#[trigger] s[i]),
    ensures
        s.filter(p) == Seq::<HitView>::empty(),
    decreases s.len(),
{
    reveal(Seq::filter);
    if s.len() > 0 {
        let init = s.drop_last();
        assert forall|i: int| 0 <= i < init.len() implies !p(#[trigger] init[i]) by {
            assert(init[i] == s[i]);
        }
        assert(!p(s[s.len() - 1]));
        lemma_filter_none(init, p);
    }
}

/// Where two of the most specific rules that apply differ in their effect, there is no decision,
/// and exactly the most specific ones are named.
pub proof fn law_most_specific_rules_have_to_agree(
    default: Effect,
    ask_requires_intent: bool,
    cmd: Seq<char>,
    all: Seq<HitView>,
    a: int,
    b: int,
)
    requires
        0 <= a < all.len(),
        0 <= b < all.len(),
        all[a].effect != all[b].effect,
        all[a].specificity == all[b].specificity,
        all[a].arg_len == all[b].arg_len,
        forall|i: int|
            0 <= i < all.len() ==> (#[trigger] all[i]).specificity < all[a].specificity
                || all[i].specificity == all[a].specificity && all[i].arg_len <= all[a].arg_len,
    ensures
        decision(default, ask_requires_intent, cmd, all) matches Err(
            PolicyErrorView::AmbiguousMatch { cmd: of, sources },
        ) && of == cmd && forall|source: Seq<char>| #[trigger]
            sources.contains(source) <==> exists|i: int|
                0 <= i < all.len() && (#[trigger] all[i]).source == source && all[i].specificity
                    == all[a].specificity && all[i].arg_len == all[a].arg_len,
{
    let p = |h: HitView| unbeaten(all, h);
    let best = best_hits(all);
    assert(unbeaten(all, all[a]) && unbeaten(all, all[b]));
    all.lemma_filter_contains(p, a);
    all.lemma_filter_contains(p, b);
    let i = choose|i: int| 0 <= i < best.len() && best[i] == all[a];
    let j = choose|j: int| 0 <= j < best.len() && best[j] == all[b];
    assert(best[i].effect != best[0].effect || best[j].effect != best[0].effect);
    let sources = best.map_values(|h: HitView| h.source);
    assert forall|source: Seq<char>| #[trigger] sources.contains(source) <==> exists|i: int|
        0 <= i < all.len() && (#[trigger] all[i]).source == source && all[i].specificity
            == all[a].specificity && all[i].arg_len == all[a].arg_len by {
        if sources.contains(source) {
            let n = choose|n: int| 0 <= n < sources.len() && sources[n] == source;
            let m = crate::policy_laws::lemma_best_hit(all, n);
            assert(!all[a].beats(all[m]));
            assert(all[m].source == source);
        }
        if exists|i: int|
            0 <= i < all.len() && (#[trigger] all[i]).source == source && all[i].specificity
                == all[a].specificity && all[i].arg_len == all[a].arg_len {
            let m = choose|i: int|
                0 <= i < all.len() && (#[trigger] all[i]).source == source && all[i].specificity
                    == all[a].specificity && all[i].arg_len == all[a].arg_len;
            assert(unbeaten(all, all[m]));
            all.lemma_filter_contains(p, m);
            let n = choose|n: int| 0 <= n < best.len() && best[n] == all[m];
            assert(sources[n] == source);
        }
    }
}

} // verus!
