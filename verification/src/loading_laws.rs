//! What rules a configuration loads, and what they then decide.

use crate::config::{Effect, RawRuleView};
use crate::decision_laws::{
    law_foremost_rule_decides, law_leading_rules_decide, law_rule_applies_by_its_kind, leading,
};
use crate::patterns::{glob_compiles, glob_matches, regex_compiles, regex_matches};
use crate::policy_model::{
    advanced_rules, any_glob_meta, compile_all, compiled, entry_source, first_failing, first_tie,
    glob_meta, loaded, matcher_of, shorthand, shorthand_rules, sourced_rules, tie_of, tied,
    trailing_star, DecisionView, MatcherView, PolicyErrorView, PolicyView,
    RuleView, SourcedRule,
};
use crate::text::{decimal_digits, is_white_space, words};
use crate::text_laws::{
    is_blank, law_blank_text_has_no_word, law_solid_text_is_one_word,
    law_text_without_a_word_is_blank, law_white_space_separates_words,
};
use vstd::prelude::*;

verus! {

/// Whether a word has no character with a meaning in a shell pattern.
pub open spec fn is_plain(w: Seq<char>) -> bool {
    forall|i: int| 0 <= i < w.len() ==> #[trigger] w[i] != '*' && w[i] != '?' && w[i] != '['
}

/// Whether all words of a list are plain.
pub open spec fn are_plain(ws: Seq<Seq<char>>) -> bool {
    forall|i: int| 0 <= i < ws.len() ==> is_plain(#[trigger] ws[i])
}

proof fn lemma_plain(w: Seq<char>)
    ensures
        glob_meta(w) <==> !is_plain(w),
{
    if !is_plain(w) {
        let i = choose|i: int|
            0 <= i < w.len() && !(#[trigger] w[i] != '*' && w[i] != '?' && w[i] != '[');
        assert(w.contains(w[i]));
    }
}

proof fn lemma_plain_list(ws: Seq<Seq<char>>)
    ensures
        any_glob_meta(ws) <==> !are_plain(ws),
        trailing_star(ws) <==> ws.len() > 0 && ws.last() == seq!['*'] && are_plain(ws.drop_last()),
{
    if any_glob_meta(ws) {
        let i = choose|i: int| 0 <= i < ws.len() && glob_meta(#[trigger] ws[i]);
        lemma_plain(ws[i]);
    }
    if !are_plain(ws) {
        let i = choose|i: int| 0 <= i < ws.len() && !is_plain(#[trigger] ws[i]);
        lemma_plain(ws[i]);
    }
    if ws.len() > 0 {
        let init = ws.drop_last();
        if trailing_star(ws) {
            assert forall|i: int| 0 <= i < init.len() implies is_plain(#[trigger] init[i]) by {
                assert(init[i] == ws[i]);
                lemma_plain(ws[i]);
            }
        }
        if are_plain(init) && ws.last() == seq!['*'] {
            assert forall|i: int| 0 <= i < ws.len() - 1 implies !glob_meta(#[trigger] ws[i]) by {
                assert(init[i] == ws[i]);
                lemma_plain(ws[i]);
            }
        }
    }
}

/// A lone star behind plain words adds nothing: the entry makes the same rule without it.
pub proof fn law_trailing_star_adds_nothing(entry: Seq<char>, c: char, effect: Effect)
    requires
        is_white_space(c),
        words(entry).len() > 0,
        are_plain(words(entry).skip(1)),
    ensures
        shorthand(entry.push(c).push('*'), effect) == shorthand(entry, effect),
{
    let star = seq!['*'];
    let longer = entry.push(c).push('*');
    assert(longer == entry.push(c) + star);
    law_white_space_separates_words(entry, c, star);
    law_solid_text_is_one_word(star);
    assert(words(longer) == words(entry).push(star));
    let args = words(entry).skip(1);
    let more = words(longer).skip(1);
    assert(more == args.push(star));
    assert(more.drop_last() == args);
    assert(words(longer)[0] == words(entry)[0]);
    lemma_plain_list(args);
    lemma_plain_list(more);
    if trailing_star(args) {
        lemma_plain(args.last());
        assert(star[0] == '*');
        assert(is_plain(args[args.len() - 1]));
    }
}

/// Whether a rule is the one of an entry of a list: of the entry's first word, for the arguments
/// that the other words name, with the effect of the list and no word on the intent.
pub open spec fn is_rule_of_entry(
    r: RuleView,
    entry: Seq<char>,
    effect: Effect,
    list: Seq<char>,
    index: nat,
) -> bool {
    let named = words(entry).skip(1);
    &&& words(entry).len() > 0
    &&& r.effect == effect
    &&& r.cmd == words(entry)[0]
    &&& r.intent_required is None
    &&& r.source == list + "["@ + decimal_digits(index) + "]"@
    &&& are_plain(named) ==> r.matcher == MatcherView::Prefix(named)
    &&& named.len() > 0 && named.last() == seq!['*'] && are_plain(named.take(named.len() - 1))
        ==> r.matcher == MatcherView::Prefix(named.take(named.len() - 1))
    &&& !are_plain(named) && !(named.last() == seq!['*'] && are_plain(named.take(named.len() - 1)))
        ==> r.matcher == MatcherView::Glob(named)
}

/// Whether a rule is the one that is written out as `raw`.
pub open spec fn is_rule_of_raw(r: RuleView, raw: RawRuleView, index: nat) -> bool {
    &&& r.effect == raw.effect
    &&& r.cmd == raw.cmd
    &&& r.intent_required == raw.intent_required
    &&& r.source == "rules"@ + "["@ + decimal_digits(index) + "]"@
    &&& raw.args_exact matches Some(v) ==> r.matcher == MatcherView::Exact(v)
    &&& raw.args_prefix matches Some(v) ==> r.matcher == MatcherView::Prefix(v)
    &&& raw.args_glob matches Some(v) ==> r.matcher == MatcherView::Glob(v)
    &&& raw.args_regex matches Some(v) ==> r.matcher == MatcherView::Regex(v)
    &&& raw.args_exact is None && raw.args_prefix is None && raw.args_glob is None
        && raw.args_regex is None ==> r.matcher == MatcherView::Prefix(seq![])
}

/// Whether a rule compares the arguments in more than one way.
pub open spec fn has_two_matchers(raw: RawRuleView) -> bool {
    ||| raw.args_exact is Some && (raw.args_prefix is Some || raw.args_glob is Some
        || raw.args_regex is Some)
    ||| raw.args_prefix is Some && (raw.args_glob is Some || raw.args_regex is Some)
    ||| raw.args_glob is Some && raw.args_regex is Some
}

/// Whether a rule that is written out can be made ready for use.
pub open spec fn is_sound(raw: RawRuleView) -> bool {
    &&& !has_two_matchers(raw)
    &&& raw.args_glob matches Some(v) ==> forall|i: int|
        0 <= i < v.len() ==> glob_compiles(#[trigger] v[i])
    &&& raw.args_regex matches Some(v) ==> forall|i: int|
        0 <= i < v.len() ==> regex_compiles(#[trigger] v[i])
}

/// Whether an entry of a list has a word and, where its words are patterns, these can be used.
pub open spec fn is_sound_entry(entry: Seq<char>) -> bool {
    let named = words(entry).skip(1);
    &&& !is_blank(entry)
    &&& are_plain(named) || named.last() == seq!['*'] && are_plain(named.take(named.len() - 1))
        || forall|i: int| 0 <= i < named.len() ==> glob_compiles(#[trigger] named[i])
}

proof fn lemma_first_failing(tokens: Seq<Seq<char>>, ok: spec_fn(Seq<char>) -> bool)
    ensures
        first_failing(tokens, ok) is None <==> forall|i: int|
            0 <= i < tokens.len() ==> ok(#[trigger] tokens[i]),
        first_failing(tokens, ok) matches Some(t) ==> exists|k: int|
            {
                &&& 0 <= k < tokens.len()
                &&& #[trigger] tokens[k] == t
                &&& !ok(t)
                &&& forall|i: int| 0 <= i < k ==> ok(#[trigger] tokens[i])
            },
    decreases tokens.len(),
{
    if tokens.len() > 0 && ok(tokens[0]) {
        let rest = tokens.drop_first();
        lemma_first_failing(rest, ok);
        if first_failing(rest, ok) is None {
            assert forall|i: int| 0 <= i < tokens.len() implies ok(#[trigger] tokens[i]) by {
                if i > 0 {
                    assert(tokens[i] == rest[i - 1]);
                }
            }
        } else {
            let t = first_failing(rest, ok)->0;
            let k = choose|k: int|
                {
                    &&& 0 <= k < rest.len()
                    &&& #[trigger] rest[k] == t
                    &&& !ok(t)
                    &&& forall|i: int| 0 <= i < k ==> ok(#[trigger] rest[i])
                };
            assert(tokens[k + 1] == t);
            assert forall|i: int| 0 <= i < k + 1 implies ok(#[trigger] tokens[i]) by {
                if i > 0 {
                    assert(tokens[i] == rest[i - 1]);
                }
            }
        }
    }
}

proof fn lemma_matcher_of(raw: RawRuleView)
    ensures
        matcher_of(raw) is Ok <==> is_sound(raw),
{
    if raw.args_glob is Some {
        lemma_first_failing(raw.args_glob->0, |t: Seq<char>| glob_compiles(t));
    }
    if raw.args_regex is Some {
        lemma_first_failing(raw.args_regex->0, |t: Seq<char>| regex_compiles(t));
    }
}

proof fn lemma_compile_all(rules: Seq<SourcedRule>)
    ensures
        compile_all(rules) is Ok <==> forall|i: int|
            0 <= i < rules.len() ==> is_sound((#[trigger] rules[i]).raw),
        compile_all(rules) matches Ok(ready) ==> ready.len() == rules.len() && forall|i: int|
            0 <= i < rules.len() ==> compiled(rules[i].raw, rules[i].source) == Ok::<
                RuleView,
                PolicyErrorView,
            >(#[trigger] ready[i]),
        compile_all(rules) matches Err(e) ==> exists|k: int|
            {
                &&& 0 <= k < rules.len()
                &&& !is_sound((#[trigger] rules[k]).raw)
                &&& matcher_of(rules[k].raw) == Err::<MatcherView, PolicyErrorView>(e)
                &&& forall|i: int| 0 <= i < k ==> is_sound((#[trigger] rules[i]).raw)
            },
    decreases rules.len(),
{
    if rules.len() > 0 {
        let init = rules.drop_last();
        let last = rules.len() - 1;
        lemma_compile_all(init);
        lemma_matcher_of(rules[last].raw);
        assert forall|i: int| 0 <= i < last implies #[trigger] init[i] == rules[i] by {}
        match compile_all(init) {
            Ok(before) => {
                assert forall|i: int| 0 <= i < last implies is_sound((#[trigger] rules[i]).raw) by {
                    assert(is_sound(init[i].raw));
                }
                if let Ok(ready) = compile_all(rules) {
                    assert forall|i: int| 0 <= i < rules.len() implies compiled(
                        rules[i].raw,
                        rules[i].source,
                    ) == Ok::<RuleView, PolicyErrorView>(#[trigger] ready[i]) by {
                        if i < last {
                            assert(ready[i] == before[i]);
                        }
                    }
                    assert forall|i: int| 0 <= i < rules.len() implies is_sound(
                        (#[trigger] rules[i]).raw,
                    ) by {}
                } else {
                    assert(!is_sound(rules[last].raw));
                }
            },
            Err(e) => {
                let k = choose|k: int|
                    {
                        &&& 0 <= k < init.len()
                        &&& !is_sound((#[trigger] init[k]).raw)
                        &&& matcher_of(init[k].raw) == Err::<MatcherView, PolicyErrorView>(e)
                        &&& forall|i: int| 0 <= i < k ==> is_sound((#[trigger] init[i]).raw)
                    };
                assert(rules[k] == init[k]);
                assert forall|i: int| 0 <= i < k implies is_sound((#[trigger] rules[i]).raw) by {
                    assert(is_sound(init[i].raw));
                }
            },
        }
    }
}

proof fn lemma_tie_of(rules: Seq<RuleView>, i: int, from: int)
    requires
        0 <= from,
    ensures
        tie_of(rules, i, from) matches Some(j) ==> from <= j < rules.len() && tied(
            rules[i],
            rules[j],
        ) && forall|k: int| from <= k < j ==> !tied(rules[i], #[trigger] rules[k]),
        tie_of(rules, i, from) is None ==> forall|k: int|
            from <= k < rules.len() ==> !tied(rules[i], #[trigger] rules[k]),
    decreases rules.len() - from,
{
    if from < rules.len() && !tied(rules[i], rules[from]) {
        lemma_tie_of(rules, i, from + 1);
    }
}

proof fn lemma_first_tie(rules: Seq<RuleView>, from: int)
    requires
        0 <= from,
    ensures
        first_tie(rules, from) matches Some(p) ==> {
            &&& from <= p.0 < p.1 < rules.len()
            &&& tied(rules[p.0], rules[p.1])
            &&& forall|k: int| p.0 < k < p.1 ==> !tied(rules[p.0], #[trigger] rules[k])
            &&& forall|i: int, k: int|
                from <= i < p.0 && i < k < rules.len() ==> !tied(
                    #[trigger] rules[i],
                    #[trigger] rules[k],
                )
        },
        first_tie(rules, from) is None ==> forall|i: int, k: int|
            from <= i < k < rules.len() ==> !tied(#[trigger] rules[i], #[trigger] rules[k]),
    decreases rules.len() - from,
{
    if from < rules.len() {
        lemma_tie_of(rules, from, from + 1);
        if tie_of(rules, from, from + 1) is None {
            lemma_first_tie(rules, from + 1);
        }
    }
}

proof fn lemma_entry(entry: Seq<char>, effect: Effect)
    ensures
        shorthand(entry, effect) is None <==> is_blank(entry),
        shorthand(entry, effect) matches Some(raw) ==> (is_sound(raw) <==> is_sound_entry(entry)),
{
    if is_blank(entry) {
        law_blank_text_has_no_word(entry);
    }
    if words(entry).len() == 0 {
        law_text_without_a_word_is_blank(entry);
    } else {
        let named = words(entry).skip(1);
        lemma_plain_list(named);
        if named.len() > 0 {
            assert(named.drop_last() == named.take(named.len() - 1));
        }
        let raw = shorthand(entry, effect)->0;
        if trailing_star(named) {
            assert(is_sound(raw));
            assert(is_sound_entry(entry));
        } else if any_glob_meta(named) {
            assert(raw.args_glob == Some(named));
            assert(named.len() > 0);
            assert(!(named.last() == seq!['*'] && are_plain(named.take(named.len() - 1))));
            let ok = forall|i: int| 0 <= i < named.len() ==> glob_compiles(#[trigger] named[i]);
            assert(is_sound_entry(entry) <==> ok);
            assert(!has_two_matchers(raw) && raw.args_regex is None);
            assert(raw.args_glob->0 == named);
            if is_sound(raw) {
                assert forall|i: int| 0 <= i < named.len() implies glob_compiles(
                    #[trigger] named[i],
                ) by {
                    assert(glob_compiles(raw.args_glob->0[i]));
                }
            }
        } else {
            assert(is_sound(raw));
            assert(is_sound_entry(entry));
        }
    }
}

proof fn lemma_rule_of_entry(
    r: RuleView,
    entry: Seq<char>,
    effect: Effect,
    list: Seq<char>,
    index: nat,
)
    requires
        shorthand(entry, effect) is Some,
        compiled(shorthand(entry, effect)->0, entry_source(list, index)) == Ok::<
            RuleView,
            PolicyErrorView,
        >(r),
    ensures
        is_rule_of_entry(r, entry, effect, list, index),
{
    let named = words(entry).skip(1);
    lemma_plain_list(named);
    if named.len() > 0 {
        assert(named.drop_last() == named.take(named.len() - 1));
        if named.last() == seq!['*'] {
            assert(named[named.len() - 1][0] == '*');
            assert(!is_plain(named[named.len() - 1]));
        }
    }
}

/// Whether a configuration has no entry and no rule that cannot be used.
pub open spec fn is_sound_configuration(
    allow: Seq<Seq<char>>,
    deny: Seq<Seq<char>>,
    ask: Seq<Seq<char>>,
    advanced: Seq<RawRuleView>,
) -> bool {
    &&& forall|i: int| 0 <= i < allow.len() ==> is_sound_entry(#[trigger] allow[i])
    &&& forall|i: int| 0 <= i < deny.len() ==> is_sound_entry(#[trigger] deny[i])
    &&& forall|i: int| 0 <= i < ask.len() ==> is_sound_entry(#[trigger] ask[i])
    &&& forall|i: int| 0 <= i < advanced.len() ==> is_sound(#[trigger] advanced[i])
}

/// Whether the rules are those of a configuration: of its lists of what is allowed, denied and
/// asked about, and then those that it writes out, each list in its order.
pub open spec fn are_rules_of(
    rules: Seq<RuleView>,
    allow: Seq<Seq<char>>,
    deny: Seq<Seq<char>>,
    ask: Seq<Seq<char>>,
    advanced: Seq<RawRuleView>,
) -> bool {
    &&& rules.len() == allow.len() + deny.len() + ask.len() + advanced.len()
    &&& forall|i: int|
        0 <= i < allow.len() ==> is_rule_of_entry(
            rules[i],
            #[trigger] allow[i],
            Effect::Allow,
            "policy.allow"@,
            i as nat,
        )
    &&& forall|i: int|
        0 <= i < deny.len() ==> is_rule_of_entry(
            rules[allow.len() + i],
            #[trigger] deny[i],
            Effect::Deny,
            "policy.deny"@,
            i as nat,
        )
    &&& forall|i: int|
        0 <= i < ask.len() ==> is_rule_of_entry(
            rules[allow.len() + deny.len() + i],
            #[trigger] ask[i],
            Effect::Ask,
            "policy.ask"@,
            i as nat,
        )
    &&& forall|i: int|
        0 <= i < advanced.len() ==> is_rule_of_raw(
            rules[allow.len() + deny.len() + ask.len() + i],
            #[trigger] advanced[i],
            i as nat,
        )
}

proof fn lemma_sourced(
    allow: Seq<Seq<char>>,
    deny: Seq<Seq<char>>,
    ask: Seq<Seq<char>>,
    advanced: Seq<RawRuleView>,
)
    ensures
        sourced_rules(allow, deny, ask, advanced) is None <==> {
            ||| exists|i: int| 0 <= i < allow.len() && is_blank(#[trigger] allow[i])
            ||| exists|i: int| 0 <= i < deny.len() && is_blank(#[trigger] deny[i])
            ||| exists|i: int| 0 <= i < ask.len() && is_blank(#[trigger] ask[i])
        },
{
    assert forall|e: Seq<char>, effect: Effect|
        (#[trigger] shorthand(e, effect) is None) <==> is_blank(e) by {
        lemma_entry(e, effect);
    }
    lemma_list(allow, Effect::Allow, "policy.allow"@);
    lemma_list(deny, Effect::Deny, "policy.deny"@);
    lemma_list(ask, Effect::Ask, "policy.ask"@);
}

proof fn lemma_list(entries: Seq<Seq<char>>, effect: Effect, list: Seq<char>)
    ensures
        shorthand_rules(entries, effect, list) is None <==> exists|i: int|
            0 <= i < entries.len() && is_blank(#[trigger] entries[i]),
        shorthand_rules(entries, effect, list) matches Some(s) ==> s.len() == entries.len()
            && forall|i: int|
            0 <= i < entries.len() ==> (#[trigger] s[i]).raw == shorthand(entries[i], effect)->0
                && s[i].source == entry_source(list, i as nat) && shorthand(
                entries[i],
                effect,
            ) is Some && (is_sound(s[i].raw) <==> is_sound_entry(entries[i])),
{
    if exists|i: int| 0 <= i < entries.len() && is_blank(#[trigger] entries[i]) {
        let i = choose|i: int| 0 <= i < entries.len() && is_blank(#[trigger] entries[i]);
        lemma_entry(entries[i], effect);
    } else {
        assert forall|i: int| 0 <= i < entries.len() implies shorthand(
            #[trigger] entries[i],
            effect,
        ) is Some && (is_sound(shorthand(entries[i], effect)->0) <==> is_sound_entry(
            entries[i],
        )) by {
            lemma_entry(entries[i], effect);
        }
    }
}

proof fn lemma_ready(
    allow: Seq<Seq<char>>,
    deny: Seq<Seq<char>>,
    ask: Seq<Seq<char>>,
    advanced: Seq<RawRuleView>,
)
    ensures
        sourced_rules(allow, deny, ask, advanced) matches Some(all) ==> {
            &&& compile_all(all) is Ok <==> is_sound_configuration(allow, deny, ask, advanced)
            &&& compile_all(all) matches Ok(rules) ==> are_rules_of(
                rules,
                allow,
                deny,
                ask,
                advanced,
            )
        },
        is_sound_configuration(allow, deny, ask, advanced) ==> sourced_rules(
            allow,
            deny,
            ask,
            advanced,
        ) is Some,
{
    lemma_sourced(allow, deny, ask, advanced);
    lemma_list(allow, Effect::Allow, "policy.allow"@);
    lemma_list(deny, Effect::Deny, "policy.deny"@);
    lemma_list(ask, Effect::Ask, "policy.ask"@);
    if let Some(all) = sourced_rules(allow, deny, ask, advanced) {
        let a = shorthand_rules(allow, Effect::Allow, "policy.allow"@)->0;
        let d = shorthand_rules(deny, Effect::Deny, "policy.deny"@)->0;
        let q = shorthand_rules(ask, Effect::Ask, "policy.ask"@)->0;
        let w = advanced_rules(advanced);
        assert(all == a + d + q + w);
        let nd = allow.len() as int;
        let nq = nd + deny.len();
        let nw = nq + ask.len();
        assert forall|i: int| 0 <= i < allow.len() implies all[i] == #[trigger] a[i] by {}
        assert forall|i: int| 0 <= i < deny.len() implies all[nd + i] == #[trigger] d[i] by {}
        assert forall|i: int| 0 <= i < ask.len() implies all[nq + i] == #[trigger] q[i] by {}
        assert forall|i: int| 0 <= i < advanced.len() implies all[nw + i] == #[trigger] w[i] by {}
        lemma_compile_all(all);
        if is_sound_configuration(allow, deny, ask, advanced) {
            assert forall|k: int| 0 <= k < all.len() implies is_sound((#[trigger] all[k]).raw) by {
                if k < nd {
                    assert(all[k] == a[k]);
                    assert(is_sound_entry(allow[k]));
                } else if k < nq {
                    assert(all[k] == d[k - nd]);
                    assert(is_sound_entry(deny[k - nd]));
                } else if k < nw {
                    assert(all[k] == q[k - nq]);
                    assert(is_sound_entry(ask[k - nq]));
                } else {
                    assert(all[k] == w[k - nw]);
                    assert(is_sound(advanced[k - nw]));
                }
            }
        }
        if let Ok(rules) = compile_all(all) {
            assert forall|i: int| 0 <= i < allow.len() implies is_rule_of_entry(
                rules[i],
                #[trigger] allow[i],
                Effect::Allow,
                "policy.allow"@,
                i as nat,
            ) && is_sound_entry(allow[i]) by {
                assert(all[i] == a[i]);
                assert(is_sound(all[i].raw));
                lemma_rule_of_entry(
                    rules[i],
                    allow[i],
                    Effect::Allow,
                    "policy.allow"@,
                    i as nat,
                );
            }
            assert forall|i: int| 0 <= i < deny.len() implies is_rule_of_entry(
                rules[allow.len() + i],
                #[trigger] deny[i],
                Effect::Deny,
                "policy.deny"@,
                i as nat,
            ) && is_sound_entry(deny[i]) by {
                assert(all[nd + i] == d[i]);
                assert(is_sound(all[nd + i].raw));
                lemma_rule_of_entry(
                    rules[nd + i],
                    deny[i],
                    Effect::Deny,
                    "policy.deny"@,
                    i as nat,
                );
            }
            assert forall|i: int| 0 <= i < ask.len() implies is_rule_of_entry(
                rules[allow.len() + deny.len() + i],
                #[trigger] ask[i],
                Effect::Ask,
                "policy.ask"@,
                i as nat,
            ) && is_sound_entry(ask[i]) by {
                assert(all[nq + i] == q[i]);
                assert(is_sound(all[nq + i].raw));
                lemma_rule_of_entry(rules[nq + i], ask[i], Effect::Ask, "policy.ask"@, i as nat);
            }
            assert forall|i: int| 0 <= i < advanced.len() implies is_rule_of_raw(
                rules[allow.len() + deny.len() + ask.len() + i],
                #[trigger] advanced[i],
                i as nat,
            ) && is_sound(advanced[i]) by {
                assert(all[nw + i] == w[i]);
                assert(is_sound(all[nw + i].raw));
                assert(compiled(all[nw + i].raw, all[nw + i].source) == Ok::<
                    RuleView,
                    PolicyErrorView,
                >(rules[nw + i]));
            }
        }
    }
}

/// A policy that loads has the rules of its configuration, and no others.
pub proof fn law_loaded_rules_are_those_of_the_configuration(
    allow: Seq<Seq<char>>,
    deny: Seq<Seq<char>>,
    ask: Seq<Seq<char>>,
    advanced: Seq<RawRuleView>,
)
    ensures
        loaded(allow, deny, ask, advanced) matches Ok(rules) ==> are_rules_of(
            rules,
            allow,
            deny,
            ask,
            advanced,
        ),
{
    lemma_ready(allow, deny, ask, advanced);
}

/// Whether two rules compare the same command in the same way and differ in their effect.
pub open spec fn at_odds(a: RuleView, b: RuleView) -> bool {
    &&& a.cmd == b.cmd
    &&& a.matcher == b.matcher
    &&& a.effect != b.effect
}

/// Whether `at` are the first two rules that are at odds.
pub open spec fn are_first_at_odds(rules: Seq<RuleView>, at: (int, int)) -> bool {
    &&& 0 <= at.0 < at.1 < rules.len()
    &&& at_odds(rules[at.0], rules[at.1])
    &&& forall|i: int, j: int|
        0 <= i < j < rules.len() && (i < at.0 || i == at.0 && j < at.1) ==> !at_odds(
            #[trigger] rules[i],
            #[trigger] rules[j],
        )
}

proof fn lemma_first_at_odds(rules: Seq<RuleView>)
    ensures
        first_tie(rules, 0) matches Some(at) ==> are_first_at_odds(rules, at),
        first_tie(rules, 0) is None ==> forall|i: int, j: int|
            0 <= i < j < rules.len() ==> !at_odds(#[trigger] rules[i], #[trigger] rules[j]),
{
    lemma_first_tie(rules, 0);
    if let Some(at) = first_tie(rules, 0) {
        assert(tied(rules[at.0], rules[at.1]));
        assert forall|i: int, j: int|
            0 <= i < j < rules.len() && (i < at.0 || i == at.0 && j < at.1) implies !at_odds(
            #[trigger] rules[i],
            #[trigger] rules[j],
        ) by {
            assert(!tied(rules[i], rules[j]));
        }
    } else {
        assert forall|i: int, j: int| 0 <= i < j < rules.len() implies !at_odds(
            #[trigger] rules[i],
            #[trigger] rules[j],
        ) by {
            assert(!tied(rules[i], rules[j]));
        }
    }
}

/// A configuration without an unusable entry or rule loads, unless two of its rules are at odds.
/// Then it is refused, and the first two are named.
pub proof fn law_sound_configuration_loads(
    allow: Seq<Seq<char>>,
    deny: Seq<Seq<char>>,
    ask: Seq<Seq<char>>,
    advanced: Seq<RawRuleView>,
) -> (rules: Seq<RuleView>)
    requires
        is_sound_configuration(allow, deny, ask, advanced),
    ensures
        are_rules_of(rules, allow, deny, ask, advanced),
        (forall|i: int, j: int|
            0 <= i < j < rules.len() ==> !at_odds(#[trigger] rules[i], #[trigger] rules[j]))
            ==> loaded(allow, deny, ask, advanced) == Ok::<Seq<RuleView>, PolicyErrorView>(rules),
        (exists|i: int, j: int|
            0 <= i < j < rules.len() && at_odds(#[trigger] rules[i], #[trigger] rules[j]))
            ==> exists|at: (int, int)| #[trigger]
            are_first_at_odds(rules, at) && loaded(allow, deny, ask, advanced) == Err::<
                Seq<RuleView>,
                PolicyErrorView,
            >(
                PolicyErrorView::TiedRules {
                    cmd: rules[at.0].cmd,
                    first: rules[at.0].source,
                    second: rules[at.1].source,
                },
            ),
{
    lemma_ready(allow, deny, ask, advanced);
    let all = sourced_rules(allow, deny, ask, advanced)->0;
    let rules = compile_all(all)->Ok_0;
    lemma_first_at_odds(rules);
    rules
}

/// A configuration with an entry that has no word is refused for it, whatever else is wrong.
pub proof fn law_entry_without_a_word_is_refused(
    allow: Seq<Seq<char>>,
    deny: Seq<Seq<char>>,
    ask: Seq<Seq<char>>,
    advanced: Seq<RawRuleView>,
)
    ensures
        loaded(allow, deny, ask, advanced) == Err::<Seq<RuleView>, PolicyErrorView>(
            PolicyErrorView::EmptyShorthand,
        ) <==> {
            ||| exists|i: int| 0 <= i < allow.len() && is_blank(#[trigger] allow[i])
            ||| exists|i: int| 0 <= i < deny.len() && is_blank(#[trigger] deny[i])
            ||| exists|i: int| 0 <= i < ask.len() && is_blank(#[trigger] ask[i])
        },
{
    lemma_sourced(allow, deny, ask, advanced);
    if let Some(all) = sourced_rules(allow, deny, ask, advanced) {
        lemma_compile_all(all);
    }
}

/// A configuration is refused for the first of the rules that it writes out that is unusable:
/// for one with two ways to compare, and otherwise for the first of its patterns that cannot be
/// used. Its lists are in order.
pub proof fn law_first_unusable_rule_is_refused(
    allow: Seq<Seq<char>>,
    deny: Seq<Seq<char>>,
    ask: Seq<Seq<char>>,
    advanced: Seq<RawRuleView>,
    k: int,
)
    requires
        0 <= k < advanced.len(),
        is_sound_configuration(allow, deny, ask, advanced.take(k)),
        !is_sound(advanced[k]),
    ensures
        has_two_matchers(advanced[k]) ==> loaded(allow, deny, ask, advanced) == Err::<
            Seq<RuleView>,
            PolicyErrorView,
        >(PolicyErrorView::MultipleMatchers { cmd: advanced[k].cmd }),
        !has_two_matchers(advanced[k]) && advanced[k].args_glob is Some ==> exists|n: int|
            {
                &&& 0 <= n < advanced[k].args_glob->0.len()
                &&& !glob_compiles(#[trigger] advanced[k].args_glob->0[n])
                &&& forall|i: int|
                    0 <= i < n ==> glob_compiles(#[trigger] advanced[k].args_glob->0[i])
                &&& loaded(allow, deny, ask, advanced) == Err::<Seq<RuleView>, PolicyErrorView>(
                    PolicyErrorView::InvalidGlob { token: advanced[k].args_glob->0[n] },
                )
            },
        !has_two_matchers(advanced[k]) && advanced[k].args_glob is None ==> exists|n: int|
            {
                &&& advanced[k].args_regex is Some
                &&& 0 <= n < advanced[k].args_regex->0.len()
                &&& !regex_compiles(#[trigger] advanced[k].args_regex->0[n])
                &&& forall|i: int|
                    0 <= i < n ==> regex_compiles(#[trigger] advanced[k].args_regex->0[i])
                &&& loaded(allow, deny, ask, advanced) == Err::<Seq<RuleView>, PolicyErrorView>(
                    PolicyErrorView::InvalidRegex { token: advanced[k].args_regex->0[n] },
                )
            },
{
    let fine = advanced.take(k);
    lemma_sourced(allow, deny, ask, fine);
    lemma_sourced(allow, deny, ask, advanced);
    lemma_ready(allow, deny, ask, fine);
    let some = sourced_rules(allow, deny, ask, fine)->0;
    let all = sourced_rules(allow, deny, ask, advanced)->0;
    let w = advanced_rules(advanced);
    let at = allow.len() + deny.len() + ask.len() + k;
    lemma_list(allow, Effect::Allow, "policy.allow"@);
    lemma_list(deny, Effect::Deny, "policy.deny"@);
    lemma_list(ask, Effect::Ask, "policy.ask"@);
    assert(advanced_rules(fine) =~= w.take(k));
    assert(some =~= all.take(at));
    assert(all[at] == w[k]);
    lemma_compile_all(some);
    lemma_compile_all(all);
    assert forall|i: int| 0 <= i < at implies is_sound((#[trigger] all[i]).raw) by {
        assert(some[i] == all[i]);
        assert(is_sound(some[i].raw));
    }
    let e = compile_all(all)->Err_0;
    let n = choose|n: int|
        {
            &&& 0 <= n < all.len()
            &&& !is_sound((#[trigger] all[n]).raw)
            &&& matcher_of(all[n].raw) == Err::<MatcherView, PolicyErrorView>(e)
            &&& forall|i: int| 0 <= i < n ==> is_sound((#[trigger] all[i]).raw)
        };
    assert(!is_sound(all[at].raw));
    assert(n == at);
    let raw = advanced[k];
    assert(all[at].raw == raw);
    if !has_two_matchers(raw) {
        if raw.args_glob is Some {
            lemma_first_failing(raw.args_glob->0, |t: Seq<char>| glob_compiles(t));
        } else {
            lemma_first_failing(raw.args_regex->0, |t: Seq<char>| regex_compiles(t));
        }
    }
}

/// What the default of a policy decides.
pub open spec fn by_default(policy: PolicyView) -> Result<DecisionView, PolicyErrorView> {
    Ok(
        DecisionView {
            effect: policy.default,
            intent_required: policy.default == Effect::Ask && policy.ask_requires_intent,
            matched_rule: None,
        },
    )
}

/// Whether a decision has the effect of a rule and names where the rule stands.
pub open spec fn is_by_rule(
    decided: Result<DecisionView, PolicyErrorView>,
    effect: Effect,
    intent_required: bool,
    source: Seq<char>,
) -> bool {
    &&& decided matches Ok(d)
    &&& d.effect == effect
    &&& d.intent_required == (effect == Effect::Ask && intent_required)
    &&& d.matched_rule matches Some(m)
    &&& m.source == source
}

proof fn lemma_lone_rule(policy: PolicyView, r: RuleView, cmd: Seq<char>, args: Seq<Seq<char>>)
    requires
        policy.rules.len() == 1,
        policy.rules[0] == r,
    ensures
        r.applies(cmd, args) ==> is_by_rule(
            policy.decides(cmd, args),
            r.effect,
            r.intent_required == Some(true) || r.intent_required is None
                && policy.ask_requires_intent,
            r.source,
        ),
        !r.applies(cmd, args) ==> policy.decides(cmd, args) == by_default(policy),
{
    law_leading_rules_decide(policy, cmd, args);
    let lead = leading(policy.rules, cmd, args);
    let p = |x: RuleView| crate::decision_laws::is_leading(policy.rules, cmd, args, x);
    if r.applies(cmd, args) {
        law_foremost_rule_decides(policy, cmd, args, 0);
        assert(lead.len() > 0) by {
            assert(policy.rules[0].applies(cmd, args));
        }
        assert forall|i: int| 0 <= i < lead.len() implies #[trigger] lead[i] == r by {
            assert(policy.rules.filter(p).contains(lead[i]));
            policy.rules.lemma_filter_contains_rev(p, lead[i]);
        }
    } else {
        assert forall|i: int| 0 <= i < policy.rules.len() implies !(
        #[trigger] policy.rules[i]).applies(cmd, args) by {}
    }
}

/// An entry of plain words, alone in its list, decides on the command lines of its command whose
/// arguments begin with the words behind it, whether or not a lone star follows them, and on no
/// others: where the first argument is not the first of these words, the default decides.
pub proof fn law_entry_decides_on_what_begins_with_its_words(
    policy: PolicyView,
    effect: Effect,
    entry: Seq<char>,
    own: Seq<char>,
    ws: Seq<Seq<char>>,
    cmd: Seq<char>,
    args: Seq<Seq<char>>,
)
    requires
        effect != Effect::Audit,
        words(entry) == seq![own] + ws || words(entry) == seq![own] + ws + seq![seq!['*']],
        are_plain(ws),
        loaded(
            if effect == Effect::Allow { seq![entry] } else { seq![] },
            if effect == Effect::Deny { seq![entry] } else { seq![] },
            if effect == Effect::Ask { seq![entry] } else { seq![] },
            seq![],
        ) == Ok::<Seq<RuleView>, PolicyErrorView>(policy.rules),
    ensures
        cmd == own && args.len() >= ws.len() && (forall|i: int|
            0 <= i < ws.len() ==> #[trigger] ws[i] == args[i]) ==> is_by_rule(
            policy.decides(cmd, args),
            effect,
            policy.ask_requires_intent,
            match effect {
                Effect::Allow => "policy.allow"@,
                Effect::Deny => "policy.deny"@,
                _ => "policy.ask"@,
            } + "["@ + decimal_digits(0) + "]"@,
        ),
        !(cmd == own && args.len() >= ws.len() && (forall|i: int|
            0 <= i < ws.len() ==> #[trigger] ws[i] == args[i])) ==> policy.decides(cmd, args)
            == by_default(policy),
        ws.len() > 0 && (args.len() == 0 || args[0] != ws[0]) ==> policy.decides(cmd, args)
            == by_default(policy),
{
    let none: Seq<Seq<char>> = seq![];
    let allow = if effect == Effect::Allow { seq![entry] } else { none };
    let deny = if effect == Effect::Deny { seq![entry] } else { none };
    let ask = if effect == Effect::Ask { seq![entry] } else { none };
    law_loaded_rules_are_those_of_the_configuration(allow, deny, ask, seq![]);
    let r = policy.rules[0];
    let named = words(entry).skip(1);
    let list = match effect {
        Effect::Allow => "policy.allow"@,
        Effect::Deny => "policy.deny"@,
        _ => "policy.ask"@,
    };
    assert(is_rule_of_entry(r, entry, effect, list, 0)) by {
        match effect {
            Effect::Allow => {
                assert(allow[0] == entry);
            },
            Effect::Deny => {
                assert(deny[0] == entry);
            },
            _ => {
                assert(ask[0] == entry);
            },
        }
    }
    assert(words(entry)[0] == own);
    if words(entry) == seq![own] + ws {
        assert(named == ws);
    } else {
        assert(named == ws.push(seq!['*']));
        assert(named.take(named.len() - 1) == ws);
        assert(named.last() == seq!['*']);
    }
    assert(r.matcher == MatcherView::Prefix(ws));
    law_rule_applies_by_its_kind(r, cmd, args);
    lemma_lone_rule(policy, r, cmd, args);
}

/// A rule that is written out, alone in its configuration, decides on a command line of its
/// command as it says: on these arguments, on those that begin so, on those that are as many as
/// its patterns and match them one by one, or on any where it says nothing of them. On no other
/// command line does it decide.
pub proof fn law_rule_decides_as_it_says(
    policy: PolicyView,
    raw: RawRuleView,
    cmd: Seq<char>,
    args: Seq<Seq<char>>,
)
    requires
        loaded(seq![], seq![], seq![], seq![raw]) == Ok::<Seq<RuleView>, PolicyErrorView>(
            policy.rules,
        ),
    ensures
        ({
            let meant = {
                &&& cmd == raw.cmd
                &&& raw.args_exact matches Some(v) ==> args.len() == v.len() && forall|i: int|
                    0 <= i < v.len() ==> #[trigger] v[i] == args[i]
                &&& raw.args_prefix matches Some(v) ==> args.len() >= v.len() && forall|i: int|
                    0 <= i < v.len() ==> #[trigger] v[i] == args[i]
                &&& raw.args_glob matches Some(v) ==> args.len() == v.len() && forall|i: int|
                    0 <= i < v.len() ==> #[trigger] glob_matches(v[i], args[i])
                &&& raw.args_regex matches Some(v) ==> args.len() == v.len() && forall|i: int|
                    0 <= i < v.len() ==> #[trigger] regex_matches(v[i], args[i])
            };
            &&& meant ==> is_by_rule(
                policy.decides(cmd, args),
                raw.effect,
                raw.intent_required == Some(true) || raw.intent_required is None
                    && policy.ask_requires_intent,
                "rules"@ + "["@ + decimal_digits(0) + "]"@,
            )
            &&& !meant ==> policy.decides(cmd, args) == by_default(policy)
        }),
{
    let none: Seq<Seq<char>> = seq![];
    law_loaded_rules_are_those_of_the_configuration(none, none, none, seq![raw]);
    lemma_ready(none, none, none, seq![raw]);
    let r = policy.rules[0];
    assert(seq![raw][0] == raw);
    assert(is_rule_of_raw(r, raw, 0));
    assert(is_sound(raw));
    law_rule_applies_by_its_kind(r, cmd, args);
    lemma_lone_rule(policy, r, cmd, args);
}

} // verus!
