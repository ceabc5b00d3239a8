//! What holds of every policy.

use crate::config::{Effect, RawRuleView};
use crate::policy_model::{
    best_hits, decision, first_tie, hits, loaded, tie_of, tied, unbeaten, DecisionView, HitView,
    PolicyErrorView, RuleView,
};
use vstd::prelude::*;

verus! {

/// A rule that applies is among the hits.
pub proof fn lemma_hit_of_rule(
    rules: Seq<RuleView>,
    cmd: Seq<char>,
    args: Seq<Seq<char>>,
    i: int,
) -> (k: int)
    requires
        0 <= i < rules.len(),
        rules[i].applies(cmd, args),
    ensures
        0 <= k < hits(rules, cmd, args).len(),
        hits(rules, cmd, args)[k] == rules[i].hit(),
    decreases rules.len(),
{
    let init = rules.drop_last();
    if i == rules.len() - 1 {
        hits(init, cmd, args).len() as int
    } else {
        assert(init[i] == rules[i]);
        lemma_hit_of_rule(init, cmd, args, i)
    }
}

/// A hit comes of a rule that applies.
pub proof fn lemma_rule_of_hit(
    rules: Seq<RuleView>,
    cmd: Seq<char>,
    args: Seq<Seq<char>>,
    k: int,
) -> (i: int)
    requires
        0 <= k < hits(rules, cmd, args).len(),
    ensures
        0 <= i < rules.len(),
        rules[i].applies(cmd, args),
        hits(rules, cmd, args)[k] == rules[i].hit(),
    decreases rules.len(),
{
    let init = rules.drop_last();
    if rules.last().applies(cmd, args) && k == hits(init, cmd, args).len() {
        rules.len() - 1
    } else {
        let i = lemma_rule_of_hit(init, cmd, args, k);
        assert(init[i] == rules[i]);
        i
    }
}

/// Among rules there is one that none beats.
proof fn lemma_some_unbeaten(all: Seq<HitView>) -> (k: int)
    requires
        all.len() > 0,
    ensures
        0 <= k < all.len(),
        unbeaten(all, all[k]),
    decreases all.len(),
{
    let init = all.drop_last();
    let last = all.len() - 1;
    if init.len() == 0 {
        last
    } else {
        let k = lemma_some_unbeaten(init);
        if all.last().beats(all[k]) {
            assert forall|i: int| 0 <= i < all.len() implies !(#[trigger] all[i]).beats(
                all[last],
            ) by {
                if i < last {
                    assert(!init[i].beats(init[k]));
                }
            }
            last
        } else {
            assert forall|i: int| 0 <= i < all.len() implies !(#[trigger] all[i]).beats(all[k]) by {
                if i < last {
                    assert(!init[i].beats(init[k]));
                }
            }
            k
        }
    }
}

/// The best hits are some of the hits, and none beats them.
pub proof fn lemma_best_hit(all: Seq<HitView>, i: int) -> (k: int)
    requires
        0 <= i < best_hits(all).len(),
    ensures
        0 <= k < all.len(),
        all[k] == best_hits(all)[i],
        unbeaten(all, all[k]),
{
    let pred = |h: HitView| unbeaten(all, h);
    let h = best_hits(all)[i];
    all.lemma_filter_pred(pred, i);
    assert(all.filter(pred).contains(h));
    all.lemma_filter_contains_rev(pred, h);
    choose|k: int| 0 <= k < all.len() && all[k] == h
}

/// Where there are hits, there is a best one.
pub proof fn lemma_best_hits_exist(all: Seq<HitView>)
    requires
        all.len() > 0,
    ensures
        best_hits(all).len() > 0,
{
    let k = lemma_some_unbeaten(all);
    let pred = |h: HitView| unbeaten(all, h);
    all.lemma_filter_contains(pred, k);
    assert(all.filter(pred).contains(all[k]));
}

/// The most specific rule wins: the rule that decides applies to the command line, and no rule
/// that applies is more specific, by the kind of its comparison in the order
/// `exact > prefix > glob > regex` and then by the number of arguments that it compares.
pub proof fn law_most_specific_rule_wins(
    default: Effect,
    ask_requires_intent: bool,
    rules: Seq<RuleView>,
    cmd: Seq<char>,
    args: Seq<Seq<char>>,
    i: int,
)
    requires
        0 <= i < rules.len(),
        rules[i].applies(cmd, args),
        decision(default, ask_requires_intent, cmd, hits(rules, cmd, args)) is Ok,
    ensures
        ({
            let d = decision(default, ask_requires_intent, cmd, hits(rules, cmd, args))->Ok_0;
            &&& d.matched_rule is Some
            &&& exists|k: int|
                {
                    &&& 0 <= k < rules.len()
                    &&& (#[trigger] rules[k]).applies(cmd, args)
                    &&& d.effect == rules[k].effect
                    &&& d.matched_rule->0.source == rules[k].source
                    &&& d.matched_rule->0.matcher == rules[k].matcher.name()
                    &&& rules[k].matcher.specificity() >= rules[i].matcher.specificity()
                    &&& rules[k].matcher.specificity() == rules[i].matcher.specificity()
                        ==> rules[k].matcher.tokens().len() >= rules[i].matcher.tokens().len()
                }
        }),
{
    let all = hits(rules, cmd, args);
    let a = lemma_hit_of_rule(rules, cmd, args, i);
    lemma_best_hits_exist(all);
    let b = lemma_best_hit(all, 0);
    let k = lemma_rule_of_hit(rules, cmd, args, b);
    assert(!all[a].beats(all[b]));
    assert(rules[k].applies(cmd, args));
}

/// Where no rule applies, the default of the policy decides.
pub proof fn law_default_decides_where_no_rule_applies(
    default: Effect,
    ask_requires_intent: bool,
    rules: Seq<RuleView>,
    cmd: Seq<char>,
    args: Seq<Seq<char>>,
)
    requires
        forall|i: int| 0 <= i < rules.len() ==> !(#[trigger] rules[i]).applies(cmd, args),
    ensures
        decision(default, ask_requires_intent, cmd, hits(rules, cmd, args)) == Ok::<
            DecisionView,
            PolicyErrorView,
        >(
            DecisionView {
                effect: default,
                intent_required: default == Effect::Ask && ask_requires_intent,
                matched_rule: None,
            },
        ),
{
    if hits(rules, cmd, args).len() > 0 {
        let i = lemma_rule_of_hit(rules, cmd, args, 0);
        assert(!rules[i].applies(cmd, args));
    }
}

/// An intent is required of no request but one that is to be asked about.
pub proof fn law_intent_is_required_for_ask_only(
    default: Effect,
    ask_requires_intent: bool,
    cmd: Seq<char>,
    all: Seq<HitView>,
)
    ensures
        decision(default, ask_requires_intent, cmd, all) matches Ok(d) ==> d.intent_required
            ==> d.effect == Effect::Ask,
{
}

proof fn lemma_no_tie_of(rules: Seq<RuleView>, i: int, from: int, j: int)
    requires
        0 <= from <= j < rules.len(),
        tie_of(rules, i, from) is None,
    ensures
        !tied(rules[i], rules[j]),
    decreases j - from,
{
    if from < j {
        lemma_no_tie_of(rules, i, from + 1, j);
    }
}

proof fn lemma_no_first_tie(rules: Seq<RuleView>, from: int, i: int, j: int)
    requires
        0 <= from <= i < j < rules.len(),
        first_tie(rules, from) is None,
    ensures
        !tied(rules[i], rules[j]),
    decreases i - from,
{
    if from == i {
        lemma_no_tie_of(rules, i, i + 1, j);
    } else {
        lemma_no_first_tie(rules, from + 1, i, j);
    }
}

/// A policy that loads has no two rules that differ in their effect and compare the same
/// command in the same way.
pub proof fn law_tied_rules_are_refused(
    allow: Seq<Seq<char>>,
    deny: Seq<Seq<char>>,
    ask: Seq<Seq<char>>,
    advanced: Seq<RawRuleView>,
)
    ensures
        loaded(allow, deny, ask, advanced) matches Ok(rules) ==> forall|i: int, j: int|
            0 <= i < rules.len() && 0 <= j < rules.len() ==> !tied(
                #[trigger] rules[i],
                #[trigger] rules[j],
            ),
{
    if let Ok(rules) = loaded(allow, deny, ask, advanced) {
        assert forall|i: int, j: int| 0 <= i < rules.len() && 0 <= j < rules.len() implies !tied(
            #[trigger] rules[i],
            #[trigger] rules[j],
        ) by {
            if i < j {
                lemma_no_first_tie(rules, 0, i, j);
            } else if j < i {
                lemma_no_first_tie(rules, 0, j, i);
            }
        }
    }
}

/// There is no decision only where two rules that apply are equally specific and differ in
/// their effect; both are then among the most specific.
pub proof fn law_undecided_only_between_equally_specific_rules(
    default: Effect,
    ask_requires_intent: bool,
    rules: Seq<RuleView>,
    cmd: Seq<char>,
    args: Seq<Seq<char>>,
) -> (pair: (int, int))
    requires
        decision(default, ask_requires_intent, cmd, hits(rules, cmd, args)) is Err,
    ensures
        0 <= pair.0 < rules.len(),
        0 <= pair.1 < rules.len(),
        rules[pair.0].applies(cmd, args),
        rules[pair.1].applies(cmd, args),
        rules[pair.0].matcher.specificity() == rules[pair.1].matcher.specificity(),
        rules[pair.0].matcher.tokens().len() == rules[pair.1].matcher.tokens().len(),
        rules[pair.0].effect != rules[pair.1].effect,
        forall|i: int|
            0 <= i < rules.len() && (#[trigger] rules[i]).applies(cmd, args)
                ==> !rules[i].hit().beats(rules[pair.0].hit()),
{
    let all = hits(rules, cmd, args);
    let best = best_hits(all);
    let n = choose|n: int| 0 <= n < best.len() && (#[trigger] best[n]).effect != best[0].effect;
    let a = lemma_best_hit(all, 0);
    let b = lemma_best_hit(all, n);
    let i = lemma_rule_of_hit(rules, cmd, args, a);
    let j = lemma_rule_of_hit(rules, cmd, args, b);
    assert(!all[a].beats(all[b]));
    assert(!all[b].beats(all[a]));
    assert forall|k: int| 0 <= k < rules.len() && (#[trigger] rules[k]).applies(cmd, args) implies !(
    rules[k].hit().beats(rules[i].hit())) by {
        let h = lemma_hit_of_rule(rules, cmd, args, k);
        assert(!all[h].beats(all[a]));
    }
    (i, j)
}

/// Under a policy that loads, rules that compare arguments literally always decide: where the
/// most specific rule that applies compares exactly or by a prefix, there is a decision.
pub proof fn law_literal_rules_always_decide(
    default: Effect,
    ask_requires_intent: bool,
    rules: Seq<RuleView>,
    cmd: Seq<char>,
    args: Seq<Seq<char>>,
    i: int,
)
    requires
        forall|j: int, k: int|
            0 <= j < rules.len() && 0 <= k < rules.len() ==> !tied(
                #[trigger] rules[j],
                #[trigger] rules[k],
            ),
        0 <= i < rules.len(),
        rules[i].applies(cmd, args),
        rules[i].matcher is Exact || rules[i].matcher is Prefix,
    ensures
        decision(default, ask_requires_intent, cmd, hits(rules, cmd, args)) is Ok,
{
    if decision(default, ask_requires_intent, cmd, hits(rules, cmd, args)) is Err {
        let (j, k) = law_undecided_only_between_equally_specific_rules(
            default,
            ask_requires_intent,
            rules,
            cmd,
            args,
        );
        let a = rules[j];
        let b = rules[k];
        assert(!rules[i].hit().beats(a.hit()));
        assert(a.matcher.tokens() =~= b.matcher.tokens()) by {
            let n = a.matcher.tokens().len();
            assert(a.matcher is Exact || a.matcher is Prefix);
            assert(b.matcher is Exact || b.matcher is Prefix);
            assert(a.matcher.tokens() =~= args.take(n as int));
            assert(b.matcher.tokens() =~= args.take(n as int));
        }
        assert(a.matcher == b.matcher);
        assert(tied(a, b));
    }
}

} // verus!
