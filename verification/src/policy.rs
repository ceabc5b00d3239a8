//! The policy engine: which rule of the configuration decides on a command line.

use crate::config::{opt_text, opt_texts, Effect, PolicyConfig, RawRule, RawRuleView};
use crate::patterns::{
    compile_glob, glob_compiles, glob_matches, glob_source, glob_text, match_glob, regex_compiles,
    regex_matches, PlainRegex,
};
use crate::policy_model::{
    advanced_rules, any_glob_meta, compile_all, compiled, decision, entry_source, first_failing,
    first_tie, glob_meta, hits, loaded, matcher_count, prefix_rule, shorthand, shorthand_rules,
    sourced_rules, tie_of, tied, trailing_star, unbeaten, DecisionView, HitView, MatchedRuleView,
    MatcherView, PolicyErrorView, PolicyView, RuleView, SourcedRule,
};
use crate::text::{chars_of, copy_texts, decimal, same_text, same_texts, split_words, texts, words};
use glob::Pattern;
use vstd::prelude::*;
use vstd::string::*;

verus! {

/// Why a policy is refused, or cannot decide.
#[derive(Debug, Clone)]
pub enum PolicyError {
    /// A shorthand entry has no word.
    EmptyShorthand,
    /// A rule compares the arguments in more than one way.
    MultipleMatchers { cmd: String },
    /// A token is no shell pattern.
    InvalidGlob { token: String },
    /// A token is no regular expression.
    InvalidRegex { token: String },
    /// Two rules differ in their effect and in nothing else.
    TiedRules { cmd: String, first: String, second: String },
    /// The most specific rules that apply differ in their effect.
    AmbiguousMatch { cmd: String, sources: Vec<String> },
}

impl View for PolicyError {
    type V = PolicyErrorView;

    open spec fn view(&self) -> PolicyErrorView {
        match *self {
            PolicyError::EmptyShorthand => PolicyErrorView::EmptyShorthand,
            PolicyError::MultipleMatchers { cmd } => PolicyErrorView::MultipleMatchers { cmd: cmd@ },
            PolicyError::InvalidGlob { token } => PolicyErrorView::InvalidGlob { token: token@ },
            PolicyError::InvalidRegex { token } => PolicyErrorView::InvalidRegex { token: token@ },
            PolicyError::TiedRules { cmd, first, second } => PolicyErrorView::TiedRules {
                cmd: cmd@,
                first: first@,
                second: second@,
            },
            PolicyError::AmbiguousMatch { cmd, sources } => PolicyErrorView::AmbiguousMatch {
                cmd: cmd@,
                sources: texts(sources@),
            },
        }
    }
}

/// A rule that applies to a command line.
#[derive(Debug, Clone)]
pub struct RuleHit {
    pub effect: Effect,
    pub intent_required: Option<bool>,
    pub source: String,
    pub matcher: String,
    pub specificity: u8,
    pub arg_len: usize,
}

impl View for RuleHit {
    type V = HitView;

    open spec fn view(&self) -> HitView {
        HitView {
            effect: self.effect,
            intent_required: self.intent_required,
            source: self.source@,
            matcher: self.matcher@,
            specificity: self.specificity as nat,
            arg_len: self.arg_len as nat,
        }
    }
}

/// The rule that decided on a request.
#[derive(Debug, Clone)]
pub struct MatchedRule {
    pub source: String,
    pub matcher: String,
    pub specificity: u8,
    pub arg_len: usize,
}

impl View for MatchedRule {
    type V = MatchedRuleView;

    open spec fn view(&self) -> MatchedRuleView {
        MatchedRuleView {
            source: self.source@,
            matcher: self.matcher@,
            specificity: self.specificity as nat,
            arg_len: self.arg_len as nat,
        }
    }
}

/// What the engine decides on a request.
#[derive(Debug, Clone)]
pub struct Decision {
    pub effect: Effect,
    pub intent_required: bool,
    pub matched_rule: Option<MatchedRule>,
}

impl View for Decision {
    type V = DecisionView;

    open spec fn view(&self) -> DecisionView {
        DecisionView {
            effect: self.effect,
            intent_required: self.intent_required,
            matched_rule: match self.matched_rule {
                Some(m) => Some(m@),
                None => None,
            },
        }
    }
}

/// The models of the rules that apply.
pub open spec fn hit_views(list: Seq<RuleHit>) -> Seq<HitView> {
    list.map_values(|h: RuleHit| h@)
}

/// What a decision amounts to.
pub open spec fn decision_view(r: Result<Decision, PolicyError>) -> Result<
    DecisionView,
    PolicyErrorView,
> {
    match r {
        Ok(d) => Ok(d@),
        Err(e) => Err(e@),
    }
}

impl RuleHit {
    /// Whether this rule is more specific than another.
    pub fn is_better(&self, other: &RuleHit) -> (r: bool)
        ensures
            r == self@.beats(other@),
    {
        self.specificity > other.specificity || (self.specificity == other.specificity
            && self.arg_len > other.arg_len)
    }
}

/// Decides where the rules of `all` apply to a command line.
pub fn decide(
    default: Effect,
    ask_requires_intent: bool,
    cmd: &str,
    all: &[RuleHit],
) -> (r: Result<Decision, PolicyError>)
    ensures
        decision_view(r) == decision(default, ask_requires_intent, cmd@, hit_views(all@)),
{
    if all.len() == 0 {
        return Ok(
            Decision {
                effect: default,
                intent_required: default == Effect::Ask && ask_requires_intent,
                matched_rule: None,
            },
        );
    }
    let ghost views = hit_views(all@);
    // The place of the first of the most specific rules.
    let mut first: usize = 0;
    let mut i: usize = 1;
    while i < all.len()
        invariant
            first < i <= all@.len(),
            forall|k: int| 0 <= k < i ==> !(#[trigger] all@[k]@).beats(all@[first as int]@),
            forall|k: int| 0 <= k < first ==> all@[first as int]@.beats(#[trigger] all@[k]@),
        decreases all@.len() - i,
    {
        if all[i].is_better(&all[first]) {
            first = i;
        }
        i += 1;
    }
    let ghost pred = |h: HitView| unbeaten(views, h);
    let mut sources: Vec<String> = Vec::new();
    let mut conflict = false;
    let mut j: usize = 0;
    assert(views.take(0).filter(pred) == Seq::<HitView>::empty()) by {
        reveal(Seq::filter);
    }
    while j < all.len()
        invariant
            j <= all@.len(),
            views == hit_views(all@),
            pred == (|h: HitView| unbeaten(views, h)),
            first < all@.len(),
            forall|k: int| 0 <= k < all@.len() ==> !(#[trigger] all@[k]@).beats(all@[first as int]@),
            forall|k: int| 0 <= k < first ==> all@[first as int]@.beats(#[trigger] all@[k]@),
            texts(sources@) == views.take(j as int).filter(pred).map_values(|h: HitView| h.source),
            j <= first ==> views.take(j as int).filter(pred).len() == 0,
            j > first ==> {
                &&& views.take(j as int).filter(pred).len() > 0
                &&& views.take(j as int).filter(pred)[0] == views[first as int]
            },
            conflict == exists|k: int|
                0 <= k < views.take(j as int).filter(pred).len() && (
                #[trigger] views.take(j as int).filter(pred)[k]).effect
                    != views[first as int].effect,
        decreases all@.len() - j,
    {
        let ghost before = views.take(j as int).filter(pred);
        let ghost now = views.take(j + 1).filter(pred);
        proof {
            reveal(Seq::filter);
            assert(views.take(j + 1).drop_last() == views.take(j as int));
            assert(views.take(j + 1).last() == views[j as int]);
            assert(views[j as int] == all@[j as int]@);
            assert(views[first as int] == all@[first as int]@);
            assert forall|k: int| 0 <= k < views.len() implies !(#[trigger] views[k]).beats(
                views[first as int],
            ) by {
                assert(views[k] == all@[k]@);
            }
        }
        if !all[first].is_better(&all[j]) {
            proof {
                assert(unbeaten(views, views[j as int])) by {
                    assert forall|k: int| 0 <= k < views.len() implies !(
                    #[trigger] views[k]).beats(views[j as int]) by {
                        assert(!views[k].beats(views[first as int]));
                        assert(!views[first as int].beats(views[j as int]));
                    }
                }
                assert(now == before.push(views[j as int]));
            }
            let ghost old_sources = sources@;
            sources.push(all[j].source.clone());
            assert(texts(sources@) == texts(old_sources).push(views[j as int].source));
            if all[j].effect != all[first].effect {
                conflict = true;
                assert(now[before.len() as int].effect != views[first as int].effect);
            }
            proof {
                assert(now.map_values(|h: HitView| h.source) == before.map_values(
                    |h: HitView| h.source,
                ).push(views[j as int].source));
                assert forall|k: int| 0 <= k < before.len() implies now[k] == before[k] by {}
            }
        } else {
            proof {
                assert(!unbeaten(views, views[j as int])) by {
                    assert(views[first as int].beats(views[j as int]));
                }
                assert(now == before);
            }
        }
        j += 1;
    }
    assert(views.take(j as int) == views);
    if conflict {
        return Err(PolicyError::AmbiguousMatch { cmd: cmd.to_owned(), sources });
    }
    let picked = &all[first];
    let intent_required = if picked.effect == Effect::Ask {
        match picked.intent_required {
            Some(required) => required,
            None => ask_requires_intent,
        }
    } else {
        false
    };
    Ok(
        Decision {
            effect: picked.effect,
            intent_required,
            matched_rule: Some(
                MatchedRule {
                    source: picked.source.clone(),
                    matcher: picked.matcher.clone(),
                    specificity: picked.specificity,
                    arg_len: picked.arg_len,
                },
            ),
        },
    )
}

/// Whether a token of a shorthand rule has a character with a meaning in a shell pattern.
pub fn has_glob_meta(s: &str) -> (r: bool)
    ensures
        r == glob_meta(s@),
{
    let chars = chars_of(s);
    let mut i: usize = 0;
    while i < chars.len()
        invariant
            i <= chars@.len(),
            chars@ == s@,
            forall|k: int| 0 <= k < i ==> chars@[k] != '*' && chars@[k] != '?' && chars@[k] != '[',
        decreases chars@.len() - i,
    {
        if chars[i] == '*' || chars[i] == '?' || chars[i] == '[' {
            assert(s@.contains(chars@[i as int]));
            return true;
        }
        i += 1;
    }
    false
}

fn raw_prefix_rule(effect: Effect, cmd: String, prefix: Vec<String>) -> (r: RawRule)
    ensures
        r@ == prefix_rule(effect, cmd@, texts(prefix@)),
{
    RawRule {
        effect,
        cmd,
        args_exact: None,
        args_prefix: Some(prefix),
        args_glob: None,
        args_regex: None,
        intent_required: None,
    }
}

/// The rule that a shorthand entry stands for.
pub fn parse_shorthand(spec: &str, effect: Effect) -> (r: Result<RawRule, PolicyError>)
    ensures
        match (r, shorthand(spec@, effect)) {
            (Ok(rule), Some(model)) => rule@ == model,
            (Err(e), None) => e is EmptyShorthand,
            _ => false,
        },
{
    let mut tokens = split_words(spec);
    if tokens.len() == 0 {
        return Err(PolicyError::EmptyShorthand);
    }
    let mut args = tokens.split_off(1);
    let ghost model = words(spec@).skip(1);
    let cmd = tokens[0].clone();
    proof {
        assert(texts(args@) =~= model);
        assert(words(spec@)[0] == cmd@);
    }
    if args.len() == 0 {
        assert(!any_glob_meta(model));
        return Ok(raw_prefix_rule(effect, cmd, args));
    }
    let last: usize = args.len() - 1;
    let mut init_has_meta = false;
    let mut i: usize = 0;
    while i < last
        invariant
            i <= last < args@.len(),
            model == texts(args@),
            init_has_meta == exists|k: int| 0 <= k < i && glob_meta(#[trigger] model[k]),
        decreases last - i,
    {
        assert(model[i as int] == args@[i as int]@);
        if has_glob_meta(args[i].as_str()) {
            init_has_meta = true;
        }
        i += 1;
    }
    let last_has_meta = has_glob_meta(args[last].as_str());
    let star = same_text(args[last].as_str(), "*");
    proof {
        reveal_strlit("*");
        assert("*"@ =~= seq!['*']);
        assert(model[last as int] == args@[last as int]@);
    }
    if star && !init_has_meta {
        assert(trailing_star(model));
        args.truncate(last);
        assert(texts(args@) =~= model.drop_last());
        return Ok(raw_prefix_rule(effect, cmd, args));
    }
    assert(!trailing_star(model));
    if init_has_meta || last_has_meta {
        assert(any_glob_meta(model));
        return Ok(
            RawRule {
                effect,
                cmd,
                args_exact: None,
                args_prefix: None,
                args_glob: Some(args),
                args_regex: None,
                intent_required: None,
            },
        );
    }
    assert(!any_glob_meta(model));
    Ok(raw_prefix_rule(effect, cmd, args))
}

/// How specific a rule is: by the kind of its comparison, and by the number of arguments that
/// it compares.
#[derive(Debug, Clone, Copy, PartialEq, Eq, Structural)]
pub struct MatchQuality {
    pub specificity: u8,
    pub arg_len: usize,
}

/// How a rule compares the arguments of a command.
#[derive(Debug)]
pub enum Matcher {
    Exact(Vec<String>),
    Prefix(Vec<String>),
    Glob(Vec<Pattern>),
    Regex(Vec<PlainRegex>),
}

/// The texts that compiled patterns were made from.
pub open spec fn glob_sources(list: Seq<Pattern>) -> Seq<Seq<char>> {
    list.map_values(|p: Pattern| glob_source(p))
}

/// The texts that compiled expressions were made from.
pub open spec fn regex_sources(list: Seq<PlainRegex>) -> Seq<Seq<char>> {
    list.map_values(|e: PlainRegex| e.source())
}

impl View for Matcher {
    type V = MatcherView;

    open spec fn view(&self) -> MatcherView {
        match *self {
            Matcher::Exact(v) => MatcherView::Exact(texts(v@)),
            Matcher::Prefix(v) => MatcherView::Prefix(texts(v@)),
            Matcher::Glob(v) => MatcherView::Glob(glob_sources(v@)),
            Matcher::Regex(v) => MatcherView::Regex(regex_sources(v@)),
        }
    }
}

fn starts_with(args: &[String], prefix: &Vec<String>) -> (r: bool)
    ensures
        r == texts(prefix@).is_prefix_of(texts(args@)),
{
    let ghost p = texts(prefix@);
    let ghost a = texts(args@);
    if prefix.len() > args.len() {
        return false;
    }
    let mut i: usize = 0;
    while i < prefix.len()
        invariant
            i <= prefix@.len() <= args@.len(),
            p == texts(prefix@),
            a == texts(args@),
            forall|k: int| 0 <= k < i ==> p[k] == a[k],
        decreases prefix@.len() - i,
    {
        if !same_text(prefix[i].as_str(), args[i].as_str()) {
            assert(p[i as int] != a.subrange(0, p.len() as int)[i as int]);
            return false;
        }
        i += 1;
    }
    assert(p =~= a.subrange(0, p.len() as int));
    true
}

impl Matcher {
    /// How specific the comparison is, where the arguments match.
    pub fn quality(&self, args: &[String]) -> (r: Option<MatchQuality>)
        ensures
            r is Some <==> self@.accepts(texts(args@)),
            r matches Some(q) ==> q.specificity == self@.specificity() && q.arg_len
                == self@.tokens().len(),
    {
        let ghost a = texts(args@);
        match self {
            Matcher::Exact(pat) => {
                if !same_texts(args, pat.as_slice()) {
                    return None;
                }
            },
            Matcher::Prefix(pat) => {
                if !starts_with(args, pat) {
                    return None;
                }
            },
            Matcher::Glob(pat) => {
                if pat.len() != args.len() {
                    return None;
                }
                let ghost p = glob_sources(pat@);
                let mut i: usize = 0;
                while i < pat.len()
                    invariant
                        i <= pat@.len() == args@.len(),
                        a == texts(args@),
                        p == glob_sources(pat@),
                        self@ == MatcherView::Glob(p),
                        forall|k: int| 0 <= k < i ==> #[trigger] glob_matches(p[k], a[k]),
                    decreases pat@.len() - i,
                {
                    if !match_glob(&pat[i], args[i].as_str()) {
                        assert(!glob_matches(p[i as int], a[i as int]));
                        return None;
                    }
                    i += 1;
                }
            },
            Matcher::Regex(pat) => {
                if pat.len() != args.len() {
                    return None;
                }
                let ghost p = regex_sources(pat@);
                let mut i: usize = 0;
                while i < pat.len()
                    invariant
                        i <= pat@.len() == args@.len(),
                        a == texts(args@),
                        p == regex_sources(pat@),
                        self@ == MatcherView::Regex(p),
                        forall|k: int| 0 <= k < i ==> #[trigger] regex_matches(p[k], a[k]),
                    decreases pat@.len() - i,
                {
                    if !pat[i].is_match(args[i].as_str()) {
                        assert(!regex_matches(p[i as int], a[i as int]));
                        return None;
                    }
                    i += 1;
                }
            },
        }
        Some(self.static_quality())
    }

    /// How specific the comparison is.
    pub fn static_quality(&self) -> (q: MatchQuality)
        ensures
            q.specificity == self@.specificity(),
            q.arg_len == self@.tokens().len(),
    {
        match self {
            Matcher::Exact(v) => MatchQuality { specificity: 4, arg_len: v.len() },
            Matcher::Prefix(v) => MatchQuality { specificity: 3, arg_len: v.len() },
            Matcher::Glob(v) => MatchQuality { specificity: 2, arg_len: v.len() },
            Matcher::Regex(v) => MatchQuality { specificity: 1, arg_len: v.len() },
        }
    }

    /// The texts that the arguments are compared with.
    pub fn fingerprint(&self) -> (tokens: Vec<String>)
        ensures
            texts(tokens@) == self@.tokens(),
    {
        match self {
            Matcher::Exact(v) => copy_texts(v.as_slice()),
            Matcher::Prefix(v) => copy_texts(v.as_slice()),
            Matcher::Glob(v) => {
                let mut tokens: Vec<String> = Vec::new();
                let mut i: usize = 0;
                while i < v.len()
                    invariant
                        i <= v@.len(),
                        tokens@.len() == i,
                        forall|k: int| 0 <= k < i ==> (#[trigger] tokens@[k])@ == glob_source(v@[k]),
                    decreases v@.len() - i,
                {
                    tokens.push(glob_text(&v[i]).to_owned());
                    i += 1;
                }
                assert(texts(tokens@) =~= glob_sources(v@));
                tokens
            },
            Matcher::Regex(v) => {
                let mut tokens: Vec<String> = Vec::new();
                let mut i: usize = 0;
                while i < v.len()
                    invariant
                        i <= v@.len(),
                        tokens@.len() == i,
                        forall|k: int|
                            0 <= k < i ==> (#[trigger] tokens@[k])@ == v@[k].source(),
                    decreases v@.len() - i,
                {
                    tokens.push(v[i].as_str().to_owned());
                    i += 1;
                }
                assert(texts(tokens@) =~= regex_sources(v@));
                tokens
            },
        }
    }

    /// The name of the comparison.
    pub fn name(&self) -> (s: &'static str)
        ensures
            s@ == self@.name(),
    {
        match self {
            Matcher::Exact(_) => "exact",
            Matcher::Prefix(_) => "prefix",
            Matcher::Glob(_) => "glob",
            Matcher::Regex(_) => "regex",
        }
    }
}

/// A rule that is ready for use, and where it stands in the configuration.
#[derive(Debug)]
pub struct CompiledRule {
    pub effect: Effect,
    pub cmd: String,
    pub matcher: Matcher,
    pub intent_required: Option<bool>,
    pub source: String,
}

impl View for CompiledRule {
    type V = RuleView;

    open spec fn view(&self) -> RuleView {
        RuleView {
            effect: self.effect,
            cmd: self.cmd@,
            matcher: self.matcher@,
            intent_required: self.intent_required,
            source: self.source@,
        }
    }
}

fn compile_globs(tokens: Vec<String>) -> (r: Result<Vec<Pattern>, PolicyError>)
    ensures
        match (r, first_failing(texts(tokens@), |t: Seq<char>| glob_compiles(t))) {
            (Ok(list), None) => glob_sources(list@) == texts(tokens@),
            (Err(e), Some(token)) => e@ == (PolicyErrorView::InvalidGlob { token }),
            _ => false,
        },
{
    let ghost ok = |t: Seq<char>| glob_compiles(t);
    let ghost all = texts(tokens@);
    let mut list: Vec<Pattern> = Vec::new();
    let mut i: usize = 0;
    assert(all.skip(0) == all);
    while i < tokens.len()
        invariant
            i <= tokens@.len(),
            all == texts(tokens@),
            ok == (|t: Seq<char>| glob_compiles(t)),
            list@.len() == i,
            forall|k: int| 0 <= k < i ==> glob_source(#[trigger] list@[k]) == tokens@[k]@,
            first_failing(all, ok) == first_failing(all.skip(i as int), ok),
        decreases tokens@.len() - i,
    {
        assert(all.skip(i as int)[0] == tokens@[i as int]@);
        assert(all.skip(i as int).drop_first() == all.skip(i + 1));
        match compile_glob(tokens[i].as_str()) {
            Ok(p) => list.push(p),
            Err(_) => {
                return Err(PolicyError::InvalidGlob { token: tokens[i].clone() });
            },
        }
        i += 1;
    }
    assert(glob_sources(list@) =~= texts(tokens@));
    Ok(list)
}

fn compile_regexes(tokens: Vec<String>) -> (r: Result<Vec<PlainRegex>, PolicyError>)
    ensures
        match (r, first_failing(texts(tokens@), |t: Seq<char>| regex_compiles(t))) {
            (Ok(list), None) => regex_sources(list@) == texts(tokens@),
            (Err(e), Some(token)) => e@ == (PolicyErrorView::InvalidRegex { token }),
            _ => false,
        },
{
    let ghost ok = |t: Seq<char>| regex_compiles(t);
    let ghost all = texts(tokens@);
    let mut list: Vec<PlainRegex> = Vec::new();
    let mut i: usize = 0;
    assert(all.skip(0) == all);
    while i < tokens.len()
        invariant
            i <= tokens@.len(),
            all == texts(tokens@),
            ok == (|t: Seq<char>| regex_compiles(t)),
            list@.len() == i,
            forall|k: int| 0 <= k < i ==> (#[trigger] list@[k]).source() == tokens@[k]@,
            first_failing(all, ok) == first_failing(all.skip(i as int), ok),
        decreases tokens@.len() - i,
    {
        assert(all.skip(i as int)[0] == tokens@[i as int]@);
        assert(all.skip(i as int).drop_first() == all.skip(i + 1));
        match PlainRegex::new(tokens[i].as_str()) {
            Ok(e) => list.push(e),
            Err(_) => {
                return Err(PolicyError::InvalidRegex { token: tokens[i].clone() });
            },
        }
        i += 1;
    }
    assert(regex_sources(list@) =~= texts(tokens@));
    Ok(list)
}

/// Makes a rule ready for use.
pub fn compile_rule(rr: RawRule, source: String) -> (r: Result<CompiledRule, PolicyError>)
    ensures
        match (r, compiled(rr@, source@)) {
            (Ok(rule), Ok(model)) => rule@ == model,
            (Err(e), Err(model)) => e@ == model,
            _ => false,
        },
{
    let mut matcher_count: usize = 0;
    if rr.args_exact.is_some() {
        matcher_count += 1;
    }
    if rr.args_prefix.is_some() {
        matcher_count += 1;
    }
    if rr.args_glob.is_some() {
        matcher_count += 1;
    }
    if rr.args_regex.is_some() {
        matcher_count += 1;
    }
    if matcher_count > 1 {
        return Err(PolicyError::MultipleMatchers { cmd: rr.cmd });
    }
    let RawRule { effect, cmd, args_exact, args_prefix, args_glob, args_regex, intent_required } =
        rr;
    let matcher = if let Some(v) = args_exact {
        Matcher::Exact(v)
    } else if let Some(v) = args_prefix {
        Matcher::Prefix(v)
    } else if let Some(v) = args_glob {
        match compile_globs(v) {
            Ok(list) => Matcher::Glob(list),
            Err(e) => {
                return Err(e);
            },
        }
    } else if let Some(v) = args_regex {
        match compile_regexes(v) {
            Ok(list) => Matcher::Regex(list),
            Err(e) => {
                return Err(e);
            },
        }
    } else {
        let none: Vec<String> = Vec::new();
        assert(texts(none@) =~= Seq::<Seq<char>>::empty());
        Matcher::Prefix(none)
    };
    Ok(CompiledRule { effect, cmd, matcher, intent_required, source })
}

/// The models of rules.
pub open spec fn rule_views(rules: Seq<CompiledRule>) -> Seq<RuleView> {
    rules.map_values(|r: CompiledRule| r@)
}

/// Whether two rules compare in the same way.
fn same_matcher(a: &Matcher, b: &Matcher) -> (r: bool)
    ensures
        r == (a@ == b@),
{
    let p: MatchQuality = a.static_quality();
    let q: MatchQuality = b.static_quality();
    if p != q {
        return false;
    }
    let x = a.fingerprint();
    let y = b.fingerprint();
    same_texts(x.as_slice(), y.as_slice())
}

/// Refuses rules of which two are tied.
pub fn validate_conflicting_ties(rules: &Vec<CompiledRule>) -> (r: Result<(), PolicyError>)
    ensures
        match (r, first_tie(rule_views(rules@), 0)) {
            (Ok(()), None) => true,
            (Err(e), Some((i, j))) => e@ == (PolicyErrorView::TiedRules {
                cmd: rule_views(rules@)[i].cmd,
                first: rule_views(rules@)[i].source,
                second: rule_views(rules@)[j].source,
            }),
            _ => false,
        },
{
    let ghost views = rule_views(rules@);
    let mut i: usize = 0;
    while i < rules.len()
        invariant
            i <= rules@.len(),
            views == rule_views(rules@),
            first_tie(views, 0) == first_tie(views, i as int),
        decreases rules@.len() - i,
    {
        let mut j: usize = i + 1;
        while j < rules.len()
            invariant
                i < j <= rules@.len(),
                views == rule_views(rules@),
                first_tie(views, 0) == first_tie(views, i as int),
                tie_of(views, i as int, i + 1) == tie_of(views, i as int, j as int),
            decreases rules@.len() - j,
        {
            let a = &rules[i];
            let b = &rules[j];
            assert(views[i as int] == a@);
            assert(views[j as int] == b@);
            if same_text(a.cmd.as_str(), b.cmd.as_str()) && same_matcher(&a.matcher, &b.matcher)
                && a.effect != b.effect {
                return Err(
                    PolicyError::TiedRules {
                        cmd: a.cmd.clone(),
                        first: a.source.clone(),
                        second: b.source.clone(),
                    },
                );
            }
            j += 1;
        }
        i += 1;
    }
    Ok(())
}

/// The place of an entry of a list of the configuration.
fn source_of(list: &str, index: usize) -> (s: String)
    ensures
        s@ == entry_source(list@, index as nat),
{
    let mut s = list.to_owned();
    s.append("[");
    s.append(decimal(index as u64).as_str());
    s.append("]");
    s
}

fn copy_option(list: &Option<Vec<String>>) -> (r: Option<Vec<String>>)
    ensures
        opt_texts(r) == opt_texts(*list),
{
    match list {
        Some(v) => Some(copy_texts(v.as_slice())),
        None => None,
    }
}

fn copy_rule(rule: &RawRule) -> (r: RawRule)
    ensures
        r@ == rule@,
{
    RawRule {
        effect: rule.effect,
        cmd: rule.cmd.clone(),
        args_exact: copy_option(&rule.args_exact),
        args_prefix: copy_option(&rule.args_prefix),
        args_glob: copy_option(&rule.args_glob),
        args_regex: copy_option(&rule.args_regex),
        intent_required: rule.intent_required,
    }
}

struct RawEntry {
    raw: RawRule,
    source: String,
}

impl View for RawEntry {
    type V = SourcedRule;

    closed spec fn view(&self) -> SourcedRule {
        SourcedRule { raw: self.raw@, source: self.source@ }
    }
}

spec fn entry_views(list: Seq<RawEntry>) -> Seq<SourcedRule> {
    list.map_values(|e: RawEntry| e@)
}

/// Adds the rules of a shorthand list.
fn add_shorthand(out: &mut Vec<RawEntry>, entries: &Vec<String>, effect: Effect, list: &str) -> (r:
    Result<(), PolicyError>)
    ensures
        match (r, shorthand_rules(texts(entries@), effect, list@)) {
            (Ok(()), Some(rules)) => entry_views(final(out)@) == entry_views(old(out)@) + rules,
            (Err(e), None) => e is EmptyShorthand,
            _ => false,
        },
{
    let ghost start = entry_views(out@);
    let ghost all = texts(entries@);
    let ghost rules = Seq::new(
        all.len(),
        |i: int|
            SourcedRule {
                raw: shorthand(all[i], effect)->0,
                source: entry_source(list@, i as nat),
            },
    );
    let mut i: usize = 0;
    assert(start + rules.take(0) =~= start);
    while i < entries.len()
        invariant
            i <= entries@.len(),
            all == texts(entries@),
            rules == Seq::new(
                all.len(),
                |i: int|
                    SourcedRule {
                        raw: shorthand(all[i], effect)->0,
                        source: entry_source(list@, i as nat),
                    },
            ),
            entry_views(out@) == start + rules.take(i as int),
            forall|k: int| 0 <= k < i ==> shorthand(#[trigger] all[k], effect) is Some,
        decreases entries@.len() - i,
    {
        let ghost before = out@;
        assert(all[i as int] == entries@[i as int]@);
        match parse_shorthand(entries[i].as_str(), effect) {
            Ok(raw) => {
                let entry = RawEntry { raw, source: source_of(list, i) };
                assert(entry@ == rules[i as int]);
                assert(entry_views(before.push(entry)) == entry_views(before).push(entry@));
                assert(rules.take(i + 1) == rules.take(i as int).push(rules[i as int]));
                assert((start + rules.take(i as int)).push(entry@) == start + rules.take(i + 1));
                out.push(entry);
            },
            Err(e) => {
                assert(shorthand(all[i as int], effect) is None);
                return Err(e);
            },
        }
        i += 1;
    }
    assert(rules.take(i as int) == rules);
    assert(shorthand_rules(all, effect, list@) == Some(rules));
    Ok(())
}

/// The models of raw rules.
pub open spec fn raw_views(list: Seq<RawRule>) -> Seq<RawRuleView> {
    list.map_values(|r: RawRule| r@)
}

/// Decides on command lines by the rules of a configuration.
#[derive(Debug)]
pub struct PolicyEngine {
    pub default: Effect,
    pub ask_requires_intent: bool,
    pub allow_hook_timeout_secs: u64,
    pub allow_hook: Option<String>,
    pub rules: Vec<CompiledRule>,
}

impl View for PolicyEngine {
    type V = PolicyView;

    open spec fn view(&self) -> PolicyView {
        PolicyView {
            default: self.default,
            ask_requires_intent: self.ask_requires_intent,
            allow_hook_timeout_secs: self.allow_hook_timeout_secs,
            allow_hook: opt_text(self.allow_hook),
            rules: self.rules(),
        }
    }
}

impl PolicyEngine {
    /// The rules, in the order of the configuration.
    pub open spec fn rules(&self) -> Seq<RuleView> {
        rule_views(self.rules@)
    }

    /// The engine of a configuration, with the rules that it loads.
    pub fn from_config(cfg: &PolicyConfig, advanced: &[RawRule]) -> (r: Result<
        PolicyEngine,
        PolicyError,
    >)
        ensures
            match (
                r,
                loaded(texts(cfg.allow@), texts(cfg.deny@), texts(cfg.ask@), raw_views(advanced@)),
            ) {
                (Ok(engine), Ok(rules)) => {
                    &&& engine.rules() == rules
                    &&& engine.default == cfg.default
                    &&& engine.ask_requires_intent == cfg.ask_requires_intent
                    &&& engine.allow_hook_timeout_secs == cfg.allow_hook_timeout_secs
                    &&& opt_text(engine.allow_hook) == opt_text(cfg.allow_hook)
                },
                (Err(e), Err(model)) => e@ == model,
                _ => false,
            },
    {
        let mut entries: Vec<RawEntry> = Vec::new();
        assert(entry_views(entries@) =~= Seq::<SourcedRule>::empty());
        if let Err(e) = add_shorthand(&mut entries, &cfg.allow, Effect::Allow, "policy.allow") {
            return Err(e);
        }
        if let Err(e) = add_shorthand(&mut entries, &cfg.deny, Effect::Deny, "policy.deny") {
            return Err(e);
        }
        if let Err(e) = add_shorthand(&mut entries, &cfg.ask, Effect::Ask, "policy.ask") {
            return Err(e);
        }
        let ghost shorthands = entry_views(entries@);
        let ghost more = advanced_rules(raw_views(advanced@));
        let mut i: usize = 0;
        assert(shorthands + more.take(0) =~= shorthands);
        while i < advanced.len()
            invariant
                i <= advanced@.len(),
                more == advanced_rules(raw_views(advanced@)),
                entry_views(entries@) == shorthands + more.take(i as int),
            decreases advanced@.len() - i,
        {
            let entry = RawEntry { raw: copy_rule(&advanced[i]), source: source_of("rules", i) };
            proof {
                assert(raw_views(advanced@)[i as int] == advanced@[i as int]@);
                assert(entry@ == more[i as int]);
                assert(entry_views(entries@.push(entry)) == entry_views(entries@).push(entry@));
                assert((shorthands + more.take(i as int)).push(entry@) == shorthands + more.take(
                    i + 1,
                ));
            }
            entries.push(entry);
            i += 1;
        }
        let ghost all = entry_views(entries@);
        proof {
            assert(more.take(i as int) == more);
            assert(Seq::<SourcedRule>::empty() + shorthand_rules(
                texts(cfg.allow@),
                Effect::Allow,
                "policy.allow"@,
            )->0 == shorthand_rules(texts(cfg.allow@), Effect::Allow, "policy.allow"@)->0);
            assert(sourced_rules(
                texts(cfg.allow@),
                texts(cfg.deny@),
                texts(cfg.ask@),
                raw_views(advanced@),
            ) == Some(all));
        }
        match compile_entries(entries) {
            Err(e) => Err(e),
            Ok(rules) => match validate_conflicting_ties(&rules) {
                Err(e) => Err(e),
                Ok(()) => Ok(
                    PolicyEngine {
                        default: cfg.default,
                        ask_requires_intent: cfg.ask_requires_intent,
                        allow_hook_timeout_secs: cfg.allow_hook_timeout_secs,
                        allow_hook: match &cfg.allow_hook {
                            Some(path) => Some(path.clone()),
                            None => None,
                        },
                        rules,
                    },
                ),
            },
        }
    }

    /// Decides on a command line: the first of the most specific rules that apply, or the
    /// default where none does.
    pub fn evaluate(&self, cmd: &str, args: &[String]) -> (r: Result<Decision, PolicyError>)
        ensures
            decision_view(r) == self@.decides(cmd@, texts(args@)),
    {
        let ghost views = self.rules();
        let mut found: Vec<RuleHit> = Vec::new();
        let mut i: usize = 0;
        assert(hit_views(found@) =~= Seq::<HitView>::empty());
        assert(views.take(0) =~= Seq::<RuleView>::empty());
        while i < self.rules.len()
            invariant
                i <= self.rules@.len(),
                views == rule_views(self.rules@),
                hit_views(found@) == hits(views.take(i as int), cmd@, texts(args@)),
            decreases self.rules@.len() - i,
        {
            let rule = &self.rules[i];
            proof {
                assert(views[i as int] == rule@);
                assert(views.take(i + 1).drop_last() == views.take(i as int));
                assert(views.take(i + 1).last() == rule@);
            }
            if same_text(rule.cmd.as_str(), cmd) {
                if let Some(q) = rule.matcher.quality(args) {
                    let hit = RuleHit {
                        effect: rule.effect,
                        intent_required: rule.intent_required,
                        source: rule.source.clone(),
                        matcher: rule.matcher.name().to_owned(),
                        specificity: q.specificity,
                        arg_len: q.arg_len,
                    };
                    assert(hit@ == rule@.hit());
                    assert(hit_views(found@.push(hit)) == hit_views(found@).push(hit@));
                    found.push(hit);
                }
            }
            i += 1;
        }
        assert(views.take(i as int) == views);
        decide(self.default, self.ask_requires_intent, cmd, found.as_slice())
    }
}

/// Makes rules ready for use.
fn compile_entries(entries: Vec<RawEntry>) -> (r: Result<Vec<CompiledRule>, PolicyError>)
    ensures
        match (r, compile_all(entry_views(entries@))) {
            (Ok(rules), Ok(models)) => rule_views(rules@) == models,
            (Err(e), Err(model)) => e@ == model,
            _ => false,
        },
{
    let ghost all = entry_views(entries@);
    let n: usize = entries.len();
    let mut rules: Vec<CompiledRule> = Vec::new();
    let mut i: usize = 0;
    assert(rule_views(rules@) =~= Seq::<RuleView>::empty());
    assert(all.take(0) =~= Seq::<SourcedRule>::empty());
    while i < n
        invariant
            i <= n == entries@.len(),
            all == entry_views(entries@),
            compile_all(all.take(i as int)) is Ok,
            rule_views(rules@) == compile_all(all.take(i as int))->Ok_0,
        decreases n - i,
    {
        proof {
            assert(all[i as int] == entries@[i as int]@);
            assert(all.take(i + 1).drop_last() == all.take(i as int));
            assert(all.take(i + 1).last() == all[i as int]);
        }
        match compile_rule(copy_rule(&entries[i].raw), entries[i].source.clone()) {
            Ok(rule) => {
                assert(rule_views(rules@.push(rule)) == rule_views(rules@).push(rule@));
                rules.push(rule);
            },
            Err(e) => {
                proof {
                    lemma_compile_all_stops(all, i + 1);
                }
                return Err(e);
            },
        }
        i += 1;
    }
    assert(all.take(i as int) == all);
    Ok(rules)
}

/// What is wrong with the first rules is what is wrong with all of them.
proof fn lemma_compile_all_stops(all: Seq<SourcedRule>, n: int)
    requires
        0 <= n <= all.len(),
        compile_all(all.take(n)) is Err,
    ensures
        compile_all(all) == compile_all(all.take(n)),
    decreases all.len(),
{
    if n < all.len() {
        assert(all.drop_last().take(n) == all.take(n));
        lemma_compile_all_stops(all.drop_last(), n);
    } else {
        assert(all.take(n) == all);
    }
}

} // verus!
