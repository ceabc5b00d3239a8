//! Literal redaction of known secrets in text and in streams of text.

use crate::text::{chars_of, text_of, texts, trim, trimmed};
use crate::utf8_input::{byte_len, read_utf8};
use aho_corasick::{AhoCorasick, BuildError};
use vstd::prelude::*;
use vstd::string::*;
use vstd::utf8::*;

verus! {

/// What stands in the output in place of a secret.
pub const MARK: &'static str = "<redacted>";

/// Whether `t` ends with one of the secrets.
pub open spec fn ends_in_secret(secrets: Seq<Seq<char>>, t: Seq<char>) -> bool {
    exists|i: int| 0 <= i < secrets.len() && (#[trigger] secrets[i]).is_suffix_of(t)
}

/// The length of the longest secret with which `t` ends, 0 where there is none.
pub open spec fn longest_ending(secrets: Seq<Seq<char>>, t: Seq<char>) -> nat
    decreases secrets.len(),
{
    if secrets.len() == 0 {
        0
    } else {
        let before = longest_ending(secrets.drop_last(), t);
        if secrets.last().is_suffix_of(t) && secrets.last().len() > before {
            secrets.last().len()
        } else {
            before
        }
    }
}

/// The least `e` from `from` on such that the first `e` characters of `t` end with a secret.
pub open spec fn first_end(secrets: Seq<Seq<char>>, t: Seq<char>, from: int) -> Option<int>
    decreases t.len() + 1 - from,
{
    if from < 0 || from > t.len() {
        None
    } else if ends_in_secret(secrets, t.take(from)) {
        Some(from)
    } else {
        first_end(secrets, t, from + 1)
    }
}

/// `t` with its secrets replaced by `mark`. The text is read from the left, and a secret is
/// replaced as soon as its last character is read: the longest one, where several end there.
/// Reading goes on behind it. No secret is empty.
pub open spec fn replaced(secrets: Seq<Seq<char>>, t: Seq<char>, mark: Seq<char>) -> Seq<char>
    decreases t.len(),
{
    match first_end(secrets, t, 1) {
        None => t,
        Some(e) => if 1 <= e <= t.len() {
            t.take(e - longest_ending(secrets, t.take(e))) + mark + replaced(
                secrets,
                t.skip(e),
                mark,
            )
        } else {
            t
        },
    }
}

/// `t` with `mark` before each of its characters and at its end.
pub open spec fn interleaved(t: Seq<char>, mark: Seq<char>) -> Seq<char>
    decreases t.len(),
{
    if t.len() == 0 {
        mark
    } else {
        mark.push(t[0]) + interleaved(t.drop_first(), mark)
    }
}

/// Whether one of the secrets is the empty text.
pub open spec fn has_empty(secrets: Seq<Seq<char>>) -> bool {
    exists|i: int| 0 <= i < secrets.len() && (#[trigger] secrets[i]).len() == 0
}

/// `t` with every secret replaced by `mark`. An empty secret is found between any two
/// characters, and before any other.
pub open spec fn redaction(secrets: Seq<Seq<char>>, t: Seq<char>, mark: Seq<char>) -> Seq<char> {
    if has_empty(secrets) {
        interleaved(t, mark)
    } else {
        replaced(secrets, t, mark)
    }
}

/// Whether `t` is the beginning of a secret, but not a whole one.
pub open spec fn begins_secret(secrets: Seq<Seq<char>>, t: Seq<char>) -> bool {
    exists|i: int|
        0 <= i < secrets.len() && t.len() < (#[trigger] secrets[i]).len() && t.is_prefix_of(
            secrets[i],
        )
}

/// The length of the longest end of `t` that is the beginning of a secret.
pub open spec fn held(secrets: Seq<Seq<char>>, t: Seq<char>) -> nat
    decreases t.len(),
{
    if t.len() == 0 {
        0
    } else if begins_secret(secrets, t) {
        t.len()
    } else {
        held(secrets, t.drop_first())
    }
}

/// Where the part of `t` behind the last replaced secret begins.
pub open spec fn tail_start(secrets: Seq<Seq<char>>, t: Seq<char>) -> int
    decreases t.len(),
{
    match first_end(secrets, t, 1) {
        None => 0,
        Some(e) => if 1 <= e <= t.len() {
            e + tail_start(secrets, t.skip(e))
        } else {
            0
        },
    }
}

/// The number of characters of `t` whose redaction no further text can change.
pub open spec fn stable_chars(secrets: Seq<Seq<char>>, t: Seq<char>) -> int {
    if has_empty(secrets) {
        t.len() as int
    } else {
        t.len() - held(secrets, t.skip(tail_start(secrets, t)))
    }
}

/// The first end is one, and none comes before it.
pub proof fn lemma_first_end(secrets: Seq<Seq<char>>, t: Seq<char>, from: int)
    requires
        0 <= from <= t.len() + 1,
    ensures
        match first_end(secrets, t, from) {
            Some(e) => {
                &&& from <= e <= t.len()
                &&& ends_in_secret(secrets, t.take(e))
                &&& forall|k: int| from <= k < e ==> !ends_in_secret(secrets, #[trigger] t.take(k))
            },
            None => forall|k: int|
                from <= k <= t.len() ==> !ends_in_secret(secrets, #[trigger] t.take(k)),
        },
    decreases t.len() + 1 - from,
{
    if from <= t.len() && !ends_in_secret(secrets, t.take(from)) {
        lemma_first_end(secrets, t, from + 1);
    }
}

/// The first end is determined by what `lemma_first_end` says of it.
pub proof fn lemma_first_end_is(secrets: Seq<Seq<char>>, t: Seq<char>, e: int)
    requires
        1 <= e <= t.len(),
        ends_in_secret(secrets, t.take(e)),
        forall|k: int| 1 <= k < e ==> !ends_in_secret(secrets, #[trigger] t.take(k)),
    ensures
        first_end(secrets, t, 1) == Some(e),
{
    lemma_first_end(secrets, t, 1);
    match first_end(secrets, t, 1) {
        Some(f) => {
            if f < e {
                assert(!ends_in_secret(secrets, t.take(f)));
            }
            if f > e {
                assert(!ends_in_secret(secrets, t.take(e)));
            }
        },
        None => {
            assert(!ends_in_secret(secrets, t.take(e)));
        },
    }
}

proof fn lemma_first_end_none(secrets: Seq<Seq<char>>, t: Seq<char>)
    requires
        forall|k: int| 1 <= k <= t.len() ==> !ends_in_secret(secrets, #[trigger] t.take(k)),
    ensures
        first_end(secrets, t, 1) is None,
{
    lemma_first_end(secrets, t, 1);
    match first_end(secrets, t, 1) {
        Some(f) => {
            assert(!ends_in_secret(secrets, t.take(f)));
        },
        None => {},
    }
}

/// The first end depends on no more than the text up to it.
proof fn lemma_first_end_prefix(secrets: Seq<Seq<char>>, t: Seq<char>, u: Seq<char>)
    requires
        first_end(secrets, t, 1) is Some,
        first_end(secrets, t, 1)->0 <= u.len(),
        u.take(first_end(secrets, t, 1)->0) == t.take(first_end(secrets, t, 1)->0),
    ensures
        first_end(secrets, u, 1) == first_end(secrets, t, 1),
{
    lemma_first_end(secrets, t, 1);
    let e = first_end(secrets, t, 1)->0;
    assert forall|k: int| 1 <= k < e implies !ends_in_secret(secrets, #[trigger] u.take(k)) by {
        assert(u.take(k) == u.take(e).take(k));
        assert(t.take(k) == t.take(e).take(k));
        assert(u.take(k) == t.take(k));
    }
    lemma_first_end_is(secrets, u, e);
}

/// The longest ending is that of a secret, and no other is longer.
pub proof fn lemma_longest_ending(secrets: Seq<Seq<char>>, t: Seq<char>)
    ensures
        longest_ending(secrets, t) <= t.len(),
        forall|i: int|
            0 <= i < secrets.len() && (#[trigger] secrets[i]).is_suffix_of(t) ==> secrets[i].len()
                <= longest_ending(secrets, t),
        longest_ending(secrets, t) > 0 ==> exists|i: int|
            0 <= i < secrets.len() && (#[trigger] secrets[i]).is_suffix_of(t) && secrets[i].len()
                == longest_ending(secrets, t),
    decreases secrets.len(),
{
    if secrets.len() > 0 {
        let init = secrets.drop_last();
        lemma_longest_ending(init, t);
        assert forall|i: int|
            0 <= i < secrets.len() && (#[trigger] secrets[i]).is_suffix_of(t) implies secrets[i].len()
            <= longest_ending(secrets, t) by {
            if i < secrets.len() - 1 {
                assert(init[i] == secrets[i]);
            }
        }
        if longest_ending(secrets, t) > 0 {
            if secrets.last().is_suffix_of(t) && secrets.last().len() > longest_ending(init, t) {
                assert(secrets[secrets.len() - 1].is_suffix_of(t));
            } else {
                let i = choose|i: int|
                    0 <= i < init.len() && (#[trigger] init[i]).is_suffix_of(t) && init[i].len()
                        == longest_ending(init, t);
                assert(secrets[i] == init[i]);
            }
        }
    }
}

/// Two texts that end with the same secrets end with the same longest one.
proof fn lemma_longest_ending_same(secrets: Seq<Seq<char>>, t: Seq<char>, u: Seq<char>)
    requires
        forall|i: int|
            0 <= i < secrets.len() ==> ((#[trigger] secrets[i]).is_suffix_of(t)
                <==> secrets[i].is_suffix_of(u)),
    ensures
        longest_ending(secrets, t) == longest_ending(secrets, u),
    decreases secrets.len(),
{
    if secrets.len() > 0 {
        let init = secrets.drop_last();
        assert forall|i: int| 0 <= i < init.len() implies ((#[trigger] init[i]).is_suffix_of(t)
            <==> init[i].is_suffix_of(u)) by {
            assert(init[i] == secrets[i]);
        }
        lemma_longest_ending_same(init, t, u);
        assert(secrets[secrets.len() - 1].is_suffix_of(t) <==> secrets[secrets.len()
            - 1].is_suffix_of(u));
    }
}

proof fn lemma_suffix_behind_first(s: Seq<char>, u: Seq<char>, e: int)
    requires
        0 <= e < u.len(),
        s.len() > 0,
        !s.is_prefix_of(u),
    ensures
        s.is_suffix_of(u.take(e + 1)) <==> s.is_suffix_of(u.drop_first().take(e)),
{
    let v = u.drop_first();
    if s.len() <= e {
        assert(u.take(e + 1).subrange(e + 1 - s.len(), e + 1) == v.take(e).subrange(
            e - s.len(),
            e,
        ));
    } else if s.len() == e + 1 {
        assert(u.take(e + 1).subrange(0, e + 1) == u.subrange(0, e + 1));
    }
}

/// Where no secret begins at the first character of a text, the secrets that end anywhere in
/// it are those of the rest.
proof fn lemma_endings_behind_first(secrets: Seq<Seq<char>>, u: Seq<char>, e: int)
    requires
        0 <= e < u.len(),
        !has_empty(secrets),
        forall|i: int| 0 <= i < secrets.len() ==> !(#[trigger] secrets[i]).is_prefix_of(u),
    ensures
        ends_in_secret(secrets, u.take(e + 1)) <==> ends_in_secret(secrets, u.drop_first().take(e)),
        longest_ending(secrets, u.take(e + 1)) == longest_ending(secrets, u.drop_first().take(e)),
{
    let a = u.take(e + 1);
    let b = u.drop_first().take(e);
    assert forall|i: int| 0 <= i < secrets.len() implies ((#[trigger] secrets[i]).is_suffix_of(a)
        <==> secrets[i].is_suffix_of(b)) by {
        assert(secrets[i].len() > 0);
        lemma_suffix_behind_first(secrets[i], u, e);
    }
    lemma_longest_ending_same(secrets, a, b);
}

proof fn lemma_no_ending_of_empty(secrets: Seq<Seq<char>>, t: Seq<char>)
    requires
        !has_empty(secrets),
        t.len() == 0,
    ensures
        !ends_in_secret(secrets, t),
{
    if ends_in_secret(secrets, t) {
        let i = choose|i: int| 0 <= i < secrets.len() && (#[trigger] secrets[i]).is_suffix_of(t);
        assert(secrets[i].len() == 0);
    }
}

/// Where no secret begins at the first character of a text, the first end is that of the rest.
proof fn lemma_first_end_behind_first(secrets: Seq<Seq<char>>, u: Seq<char>)
    requires
        u.len() > 0,
        !has_empty(secrets),
        forall|i: int| 0 <= i < secrets.len() ==> !(#[trigger] secrets[i]).is_prefix_of(u),
    ensures
        first_end(secrets, u, 1) == match first_end(secrets, u.drop_first(), 1) {
            None => None::<int>,
            Some(e) => Some(e + 1),
        },
{
    let v = u.drop_first();
    lemma_no_ending_of_empty(secrets, v.take(0));
    lemma_first_end(secrets, v, 1);
    match first_end(secrets, v, 1) {
        Some(e) => {
            lemma_endings_behind_first(secrets, u, e);
            assert forall|k: int| 1 <= k < e + 1 implies !ends_in_secret(
                secrets,
                #[trigger] u.take(k),
            ) by {
                lemma_endings_behind_first(secrets, u, k - 1);
                assert(!ends_in_secret(secrets, v.take(k - 1)));
            }
            lemma_first_end_is(secrets, u, e + 1);
        },
        None => {
            assert forall|k: int| 1 <= k <= u.len() implies !ends_in_secret(
                secrets,
                #[trigger] u.take(k),
            ) by {
                lemma_endings_behind_first(secrets, u, k - 1);
                assert(!ends_in_secret(secrets, v.take(k - 1)));
            }
            lemma_first_end_none(secrets, u);
        },
    }
}

proof fn lemma_first_end_range(secrets: Seq<Seq<char>>, t: Seq<char>)
    ensures
        first_end(secrets, t, 1) matches Some(e) ==> 1 <= e <= t.len(),
{
    lemma_first_end(secrets, t, 1);
}

/// Where no secret begins at the first character of a text, that character stays and the rest
/// is redacted by itself.
proof fn lemma_replaced_drop_first(secrets: Seq<Seq<char>>, u: Seq<char>, mark: Seq<char>)
    requires
        u.len() > 0,
        !has_empty(secrets),
        forall|i: int| 0 <= i < secrets.len() ==> !(#[trigger] secrets[i]).is_prefix_of(u),
    ensures
        replaced(secrets, u, mark) == seq![u[0]] + replaced(secrets, u.drop_first(), mark),
{
    let v = u.drop_first();
    lemma_first_end_behind_first(secrets, u);
    lemma_first_end_range(secrets, v);
    match first_end(secrets, v, 1) {
        Some(e) => {
            lemma_endings_behind_first(secrets, u, e);
            lemma_longest_ending(secrets, v.take(e));
            let n = longest_ending(secrets, v.take(e));
            let rest = replaced(secrets, v.skip(e), mark);
            assert(u.skip(e + 1) == v.skip(e));
            assert(u.take(e + 1 - n) == seq![u[0]] + v.take(e - n));
            assert(seq![u[0]] + v.take(e - n) + mark + rest == seq![u[0]] + (v.take(e - n) + mark
                + rest));
        },
        None => {
            assert(u == seq![u[0]] + v);
        },
    }
}

/// The longest end that begins a secret does so, and no longer one does.
pub proof fn lemma_held(secrets: Seq<Seq<char>>, t: Seq<char>)
    ensures
        held(secrets, t) <= t.len(),
        held(secrets, t) > 0 ==> begins_secret(secrets, t.skip(t.len() - held(secrets, t))),
        forall|p: int|
            0 <= p < t.len() - held(secrets, t) ==> !begins_secret(secrets, #[trigger] t.skip(p)),
    decreases t.len(),
{
    assert(t.skip(0) == t);
    if t.len() > 0 && !begins_secret(secrets, t) {
        let u = t.drop_first();
        lemma_held(secrets, u);
        let h = held(secrets, u);
        assert(u.skip(u.len() - h) == t.skip(t.len() - h));
        assert forall|p: int| 0 <= p < t.len() - h implies !begins_secret(
            secrets,
            #[trigger] t.skip(p),
        ) by {
            if p > 0 {
                assert(t.skip(p) == u.skip(p - 1));
            }
        }
    }
}

/// Behind the last replaced secret no secret ends.
pub proof fn lemma_tail_start(secrets: Seq<Seq<char>>, t: Seq<char>)
    ensures
        0 <= tail_start(secrets, t) <= t.len(),
        first_end(secrets, t.skip(tail_start(secrets, t)), 1) is None,
    decreases t.len(),
{
    lemma_first_end(secrets, t, 1);
    match first_end(secrets, t, 1) {
        None => {
            assert(t.skip(0) == t);
        },
        Some(e) => {
            let u = t.skip(e);
            lemma_tail_start(secrets, u);
            assert(u.skip(tail_start(secrets, u)) == t.skip(e + tail_start(secrets, u)));
        },
    }
}

/// The stable part of a text is a beginning of it.
pub proof fn lemma_stable_chars(secrets: Seq<Seq<char>>, t: Seq<char>)
    ensures
        0 <= stable_chars(secrets, t) <= t.len(),
{
    lemma_tail_start(secrets, t);
    lemma_held(secrets, t.skip(tail_start(secrets, t)));
}

/// A text without a secret is emitted up to the longest end that may become one; what is
/// emitted stays as it is, whatever follows.
proof fn lemma_emit_unmatched(
    secrets: Seq<Seq<char>>,
    t: Seq<char>,
    rest: Seq<char>,
    mark: Seq<char>,
    n: int,
)
    requires
        !has_empty(secrets),
        first_end(secrets, t, 1) is None,
        0 <= n <= t.len() - held(secrets, t),
    ensures
        replaced(secrets, t + rest, mark) == t.take(n) + replaced(secrets, t.skip(n) + rest, mark),
    decreases n,
{
    if n == 0 {
        assert(t.skip(0) == t);
        assert(t.take(0) + replaced(secrets, t + rest, mark) == replaced(secrets, t + rest, mark));
    } else {
        let m = n - 1;
        lemma_emit_unmatched(secrets, t, rest, mark, m);
        let u = t.skip(m) + rest;
        assert forall|i: int| 0 <= i < secrets.len() implies !(
        #[trigger] secrets[i]).is_prefix_of(u) by {
            let s = secrets[i];
            if s.is_prefix_of(u) {
                if s.len() <= t.len() - m {
                    lemma_first_end(secrets, t, 1);
                    let w = t.take(m + s.len());
                    assert(s.len() > 0);
                    assert(w.subrange(m, m + s.len()) == u.subrange(0, s.len() as int));
                    assert(s.is_suffix_of(w));
                    assert(ends_in_secret(secrets, w));
                } else {
                    lemma_held(secrets, t);
                    let w = t.skip(m);
                    assert(w == s.subrange(0, w.len() as int));
                    assert(begins_secret(secrets, w));
                }
            }
        }
        lemma_replaced_drop_first(secrets, u, mark);
        assert(u.drop_first() == t.skip(n) + rest);
        assert(t.take(n) == t.take(m) + seq![u[0]]);
        assert(t.take(m) + (seq![u[0]] + replaced(secrets, t.skip(n) + rest, mark)) == t.take(n)
            + replaced(secrets, t.skip(n) + rest, mark));
    }
}

/// Redaction of a stream: the stable part of the text read so far can be redacted and sent on
/// by itself. Whatever follows, the whole is redacted as if it had been read at once. No
/// secret is empty.
pub proof fn law_stable_part_redacts_alone(
    secrets: Seq<Seq<char>>,
    t: Seq<char>,
    rest: Seq<char>,
    mark: Seq<char>,
)
    requires
        !has_empty(secrets),
    ensures
        redaction(secrets, t + rest, mark) == redaction(
            secrets,
            t.take(stable_chars(secrets, t)),
            mark,
        ) + redaction(secrets, t.skip(stable_chars(secrets, t)) + rest, mark),
    decreases t.len(),
{
    let n = stable_chars(secrets, t);
    lemma_stable_chars(secrets, t);
    lemma_first_end(secrets, t, 1);
    match first_end(secrets, t, 1) {
        None => {
            assert(t.skip(0) == t);
            lemma_emit_unmatched(secrets, t, rest, mark, n);
            assert forall|k: int| 1 <= k <= t.take(n).len() implies !ends_in_secret(
                secrets,
                #[trigger] t.take(n).take(k),
            ) by {
                assert(t.take(n).take(k) == t.take(k));
            }
            lemma_first_end_none(secrets, t.take(n));
        },
        Some(e) => {
            let u = t.skip(e);
            law_stable_part_redacts_alone(secrets, u, rest, mark);
            lemma_stable_chars(secrets, u);
            lemma_tail_start(secrets, u);
            assert(u.skip(tail_start(secrets, u)) == t.skip(tail_start(secrets, t)));
            assert(n == e + stable_chars(secrets, u));
            assert((t + rest).take(e) == t.take(e));
            lemma_first_end_prefix(secrets, t, t + rest);
            assert((t + rest).skip(e) == u + rest);
            assert(t.take(n).take(e) == t.take(e));
            lemma_first_end_prefix(secrets, t, t.take(n));
            assert(t.take(n).skip(e) == u.take(n - e));
            assert(u.skip(n - e) == t.skip(n));
            lemma_longest_ending(secrets, t.take(e));
            let s = e - longest_ending(secrets, t.take(e));
            assert((t + rest).take(s) == t.take(s));
            assert(t.take(n).take(s) == t.take(s));
            let a = replaced(secrets, u.take(n - e), mark);
            let b = replaced(secrets, t.skip(n) + rest, mark);
            assert(t.take(s) + mark + (a + b) == t.take(s) + mark + a + b);
        },
    }
}

/// Whether a secret stands anywhere in `t`.
pub open spec fn contains_secret(secrets: Seq<Seq<char>>, t: Seq<char>) -> bool {
    exists|e: int| 0 <= e <= t.len() && ends_in_secret(secrets, #[trigger] t.take(e))
}

/// The parts of `t` that redaction keeps, in order: one more than it replaces.
pub open spec fn kept(secrets: Seq<Seq<char>>, t: Seq<char>) -> Seq<Seq<char>>
    decreases t.len(),
{
    match first_end(secrets, t, 1) {
        None => seq![t],
        Some(e) => if 1 <= e <= t.len() {
            seq![t.take(e - longest_ending(secrets, t.take(e)))] + kept(secrets, t.skip(e))
        } else {
            seq![t]
        },
    }
}

/// The parts of `t` that redaction replaces, in order.
pub open spec fn removed(secrets: Seq<Seq<char>>, t: Seq<char>) -> Seq<Seq<char>>
    decreases t.len(),
{
    match first_end(secrets, t, 1) {
        None => seq![],
        Some(e) => if 1 <= e <= t.len() {
            seq![t.subrange(e - longest_ending(secrets, t.take(e)), e)] + removed(
                secrets,
                t.skip(e),
            )
        } else {
            seq![]
        },
    }
}

/// `parts` with `between[i]` behind `parts[i]`.
pub open spec fn woven(parts: Seq<Seq<char>>, between: Seq<Seq<char>>) -> Seq<char>
    decreases between.len(),
{
    if between.len() == 0 {
        parts[0]
    } else {
        parts[0] + between[0] + woven(parts.drop_first(), between.drop_first())
    }
}

/// Redaction replaces secrets and nothing else, and no part that it keeps holds a secret. No
/// secret is empty.
pub proof fn law_redaction_replaces_exactly_the_secrets(
    secrets: Seq<Seq<char>>,
    t: Seq<char>,
    mark: Seq<char>,
)
    requires
        !has_empty(secrets),
    ensures
        kept(secrets, t).len() == removed(secrets, t).len() + 1,
        t == woven(kept(secrets, t), removed(secrets, t)),
        redaction(secrets, t, mark) == woven(
            kept(secrets, t),
            removed(secrets, t).map_values(|s: Seq<char>| mark),
        ),
        forall|i: int|
            0 <= i < removed(secrets, t).len() ==> secrets.contains(
                #[trigger] removed(secrets, t)[i],
            ),
        forall|i: int|
            0 <= i < kept(secrets, t).len() ==> !contains_secret(
                secrets,
                #[trigger] kept(secrets, t)[i],
            ),
    decreases t.len(),
{
    lemma_first_end(secrets, t, 1);
    lemma_no_ending_of_empty(secrets, t.take(0));
    let marks = removed(secrets, t).map_values(|s: Seq<char>| mark);
    match first_end(secrets, t, 1) {
        None => {},
        Some(e) => {
            let n = longest_ending(secrets, t.take(e));
            let u = t.skip(e);
            lemma_longest_ending(secrets, t.take(e));
            law_redaction_replaces_exactly_the_secrets(secrets, u, mark);
            let first = t.take(e - n);
            let gone = t.subrange(e - n, e);
            let i = choose|i: int|
                0 <= i < secrets.len() && (#[trigger] secrets[i]).is_suffix_of(t.take(e));
            assert(secrets[i].len() > 0);
            let j = choose|j: int|
                0 <= j < secrets.len() && (#[trigger] secrets[j]).is_suffix_of(t.take(e))
                    && secrets[j].len() == n;
            assert(gone == t.take(e).subrange(e - n, e));
            assert(secrets[j] == gone);
            assert(secrets.contains(gone));
            assert(kept(secrets, t).drop_first() == kept(secrets, u));
            assert(removed(secrets, t).drop_first() == removed(secrets, u));
            assert(marks.drop_first() == removed(secrets, u).map_values(|s: Seq<char>| mark));
            assert(t == first + gone + u);
            assert forall|k: int| 0 <= k < removed(secrets, t).len() implies secrets.contains(
                #[trigger] removed(secrets, t)[k],
            ) by {
                if k > 0 {
                    assert(removed(secrets, t)[k] == removed(secrets, u)[k - 1]);
                }
            }
            assert(!contains_secret(secrets, first)) by {
                if contains_secret(secrets, first) {
                    let k = choose|k: int|
                        0 <= k <= first.len() && ends_in_secret(secrets, #[trigger] first.take(k));
                    assert(first.take(k) == t.take(k));
                }
            }
            assert forall|k: int| 0 <= k < kept(secrets, t).len() implies !contains_secret(
                secrets,
                #[trigger] kept(secrets, t)[k],
            ) by {
                if k > 0 {
                    assert(kept(secrets, t)[k] == kept(secrets, u)[k - 1]);
                }
            }
        },
    }
}

/// Whether an automaton can be built for the patterns: what `AhoCorasick::new` decides, whose
/// state and pattern identifiers are bounded.
pub uninterp spec fn automaton_builds(patterns: Seq<Seq<char>>) -> bool;

/// The patterns that an automaton searches for, in the order of their identifiers.
pub uninterp spec fn automaton_patterns(automaton: AhoCorasick) -> Seq<Seq<char>>;

/// The multi-pattern searcher of the crate `aho_corasick`.
#[verifier::external_type_specification]
#[verifier::external_body]
pub struct ExAhoCorasick(AhoCorasick);

/// Why `aho_corasick` could not build a searcher.
#[verifier::external_type_specification]
#[verifier::external_body]
pub struct ExBuildError(BuildError);

/// Calls `AhoCorasick::new`. The automaton searches for the given patterns with the crate's
/// standard match semantics; whether it can be built depends on the patterns alone.
#[verifier::external_body]
fn build_automaton(patterns: &Vec<String>) -> (r: Result<AhoCorasick, BuildError>)
    ensures
        r is Ok <==> automaton_builds(texts(patterns@)),
        r matches Ok(a) ==> automaton_patterns(a) == texts(patterns@),
{
    AhoCorasick::new(patterns)
}

/// Calls `AhoCorasick::replace_all` with one replacement for each pattern, all of them equal.
/// The matches are non-overlapping and reported as they are seen, so each is the one that ends
/// first behind the one before it; of the patterns that end at the same place the automaton
/// reports the longest. An empty pattern matches at the start of every search, so it is
/// reported at every position; those inside a character are passed over.
#[verifier::external_body]
fn replace_all(automaton: &AhoCorasick, text: &str, replacements: &Vec<&str>) -> (r: String)
    requires
        replacements@.len() == automaton_patterns(*automaton).len(),
        replacements@.len() > 0,
        forall|i: int| 0 <= i < replacements@.len() ==> (#[trigger] replacements@[i])@
            == replacements@[0]@,
    ensures
        r@ == redaction(automaton_patterns(*automaton), text@, replacements@[0]@),
{
    automaton.replace_all(text, replacements)
}

/// Replaces known secrets in text.
#[derive(Debug)]
pub struct Redactor {
    secrets: Vec<String>,
    matcher: Option<AhoCorasick>,
}

/// Why no redactor can be made, or a text cannot be redacted.
#[derive(Debug)]
pub enum RedactError {
    /// No searcher can be built for the secrets.
    Matcher(BuildError),
    /// The bytes are not UTF-8.
    NonUtf8,
}

impl Redactor {
    /// The secrets that are replaced.
    pub closed spec fn secrets(&self) -> Seq<Seq<char>> {
        texts(self.secrets@)
    }

    #[verifier::type_invariant]
    spec fn wf(self) -> bool {
        &&& self.matcher is None <==> self.secrets@.len() == 0
        &&& self.matcher matches Some(m) ==> automaton_patterns(m) == texts(self.secrets@)
    }

    /// A redactor of the given secrets. It cannot be made where there are secrets for which no
    /// searcher can be built.
    pub fn from_secrets(secrets: Vec<String>) -> (r: Result<Redactor, RedactError>)
        ensures
            r is Ok <==> secrets@.len() == 0 || automaton_builds(texts(secrets@)),
            r matches Ok(redactor) ==> redactor.secrets() == texts(secrets@),
            r matches Err(e) ==> e is Matcher,
    {
        if secrets.len() == 0 {
            return Ok(Redactor { secrets, matcher: None });
        }
        match build_automaton(&secrets) {
            Ok(matcher) => Ok(Redactor { secrets, matcher: Some(matcher) }),
            Err(e) => Err(RedactError::Matcher(e)),
        }
    }

    /// `text` with every secret replaced.
    pub fn redact_text(&self, text: &str) -> (r: String)
        ensures
            r@ == redaction(self.secrets(), text@, MARK@),
    {
        proof {
            use_type_invariant(self);
        }
        match &self.matcher {
            None => {
                proof {
                    lemma_redaction_without_secrets(self.secrets(), text@, MARK@);
                }
                text.to_owned()
            },
            Some(matcher) => {
                let mut replacements: Vec<&str> = Vec::new();
                let mut i: usize = 0;
                while i < self.secrets.len()
                    invariant
                        i <= self.secrets@.len(),
                        replacements@.len() == i,
                        forall|k: int| 0 <= k < i ==> (#[trigger] replacements@[k])@ == MARK@,
                    decreases self.secrets@.len() - i,
                {
                    replacements.push(MARK);
                    i += 1;
                }
                replace_all(matcher, text, &replacements)
            },
        }
    }

    /// The text of `data` with every secret replaced. Bytes that are not UTF-8 are refused.
    pub fn redact_utf8(&self, data: &[u8]) -> (r: Result<String, RedactError>)
        ensures
            r is Ok <==> valid_utf8(data@),
            r matches Ok(s) ==> s@ == redaction(self.secrets(), decode_utf8(data@), MARK@),
            r matches Err(e) ==> e is NonUtf8,
    {
        match read_utf8(data) {
            Ok(text) => {
                proof {
                    encode_utf8_valid_utf8(text@);
                    encode_utf8_decode_utf8(text@);
                }
                Ok(self.redact_text(text))
            },
            Err(_) => Err(RedactError::NonUtf8),
        }
    }

    /// The number of bytes of the longest end of `text` that is the beginning of a secret, but
    /// not a whole one. It is 0 where `text` ends with a whole secret.
    pub fn trailing_secret_prefix_len(&self, text: &str) -> (n: usize)
        ensures
            ends_in_secret(self.secrets(), text@) ==> n == 0,
            !ends_in_secret(self.secrets(), text@) ==> n == encode_utf8(
                text@.skip(text@.len() - held(self.secrets(), text@)),
            ).len(),
    {
        let secrets = chars_of_all(&self.secrets);
        let chars = chars_of(text);
        let ghost specs = self.secrets();
        proof {
            lemma_held(specs, text@);
            assert(text@.take(text@.len() as int) == text@);
            assert(text@.skip(0) == text@);
            assert(text@.subrange(0, text@.len() as int) == text@);
        }
        if ending_at(&secrets, chars.as_slice(), 0, chars.len()) {
            return 0;
        }
        let from: usize = held_from(&secrets, chars.as_slice(), 0);
        assert(text@.skip(from as int) == text@.subrange(from as int, text@.len() as int));
        let tail = text_of(chars.as_slice(), from, chars.len());
        byte_len(tail.as_str())
    }

    /// The number of characters of `text` whose redaction no further text can change.
    pub fn stable_char_count(&self, text: &str) -> (n: usize)
        ensures
            n == stable_chars(self.secrets(), text@),
            n <= text@.len(),
    {
        let secrets = chars_of_all(&self.secrets);
        let chars = chars_of(text);
        let ghost specs = self.secrets();
        if any_empty(&secrets) {
            return chars.len();
        }
        let mut at: usize = 0;
        let mut e: usize = 0;
        assert(text@.skip(0) == text@);
        while e < chars.len()
            invariant
                specs == texts_of_chars(secrets@),
                chars@ == text@,
                at <= e <= chars@.len(),
                tail_start(specs, text@) == at + tail_start(specs, text@.skip(at as int)),
                first_end(specs, text@.skip(at as int), 1) == first_end(
                    specs,
                    text@.skip(at as int),
                    e - at + 1,
                ),
            decreases chars@.len() - e,
        {
            let ghost t = text@.skip(at as int);
            e += 1;
            assert(t.take(e - at) == text@.subrange(at as int, e as int));
            if ending_at(&secrets, chars.as_slice(), at, e) {
                assert(t.skip(e - at) == text@.skip(e as int));
                at = e;
            }
        }
        let from: usize = held_from(&secrets, chars.as_slice(), at);
        from
    }

    /// The number of bytes of `text` whose redaction no further text can change.
    pub fn stable_prefix_len(&self, text: &str) -> (n: usize)
        ensures
            n == encode_utf8(text@.take(stable_chars(self.secrets(), text@))).len(),
    {
        let count: usize = self.stable_char_count(text);
        let chars = chars_of(text);
        assert(text@.take(count as int) == text@.subrange(0, count as int));
        let stable = text_of(chars.as_slice(), 0, count);
        byte_len(stable.as_str())
    }
}

/// The number of characters of the first line of `s`.
pub open spec fn line_len(s: Seq<char>) -> nat
    decreases s.len(),
{
    if s.len() == 0 || s[0] == '\n' {
        0
    } else {
        1 + line_len(s.drop_first())
    }
}

/// A line ends at the first line break, or where the text ends.
pub proof fn lemma_line_len(s: Seq<char>)
    ensures
        line_len(s) <= s.len(),
        forall|k: int| 0 <= k < line_len(s) ==> s[k] != '\n',
        line_len(s) < s.len() ==> s[line_len(s) as int] == '\n',
    decreases s.len(),
{
    if s.len() > 0 && s[0] != '\n' {
        let rest = s.drop_first();
        lemma_line_len(rest);
        assert forall|k: int| 0 <= k < line_len(s) implies s[k] != '\n' by {
            if k > 0 {
                assert(s[k] == rest[k - 1]);
            }
        }
    }
}

/// The secrets that a secrets file lists: its lines without the white space around them,
/// except those that are then empty.
pub open spec fn listed_secrets(raw: Seq<char>) -> Seq<Seq<char>>
    decreases raw.len(),
{
    let n = line_len(raw) as int;
    let line = trimmed(raw.take(n));
    let first: Seq<Seq<char>> = if line.len() == 0 {
        seq![]
    } else {
        seq![line]
    };
    if 0 <= n < raw.len() {
        first + listed_secrets(raw.skip(n + 1))
    } else {
        first
    }
}

/// The secrets that the text of a secrets file lists. None of them is empty.
pub fn load_secrets(raw: &str) -> (secrets: Vec<String>)
    ensures
        texts(secrets@) == listed_secrets(raw@),
        !has_empty(texts(secrets@)),
{
    let chars = chars_of(raw);
    let mut secrets: Vec<String> = Vec::new();
    let mut at: usize = 0;
    let mut more = true;
    assert(raw@.skip(0) == raw@);
    assert(texts(secrets@) + listed_secrets(raw@) == listed_secrets(raw@));
    while more
        invariant
            chars@ == raw@,
            at <= chars@.len(),
            more ==> listed_secrets(raw@) == texts(secrets@) + listed_secrets(raw@.skip(at as int)),
            !more ==> listed_secrets(raw@) == texts(secrets@),
            forall|k: int| 0 <= k < secrets@.len() ==> (#[trigger] secrets@[k])@.len() > 0,
        decreases chars@.len() - at + if more { 1int } else { 0 },
    {
        let ghost rest = raw@.skip(at as int);
        let ghost before = texts(secrets@);
        let mut to: usize = at;
        proof {
            lemma_line_len(rest);
        }
        while to < chars.len() && chars[to] != '\n'
            invariant
                at <= to <= chars@.len(),
                rest == chars@.skip(at as int),
                to - at <= line_len(rest) <= rest.len(),
                line_len(rest) < rest.len() ==> rest[line_len(rest) as int] == '\n',
            decreases chars@.len() - to,
        {
            assert(rest[to - at] == chars@[to as int]);
            to += 1;
        }
        proof {
            if to < chars@.len() {
                assert(rest[to - at] == chars@[to as int]);
            }
            assert(to - at == line_len(rest));
            assert(rest.take(to - at) == chars@.subrange(at as int, to as int));
        }
        let line = text_of(chars.as_slice(), at, to);
        let secret = trim(line.as_str());
        let ghost first: Seq<Seq<char>> = if secret@.len() == 0 {
            seq![]
        } else {
            seq![secret@]
        };
        if !secret.as_str().is_empty() {
            assert(texts(secrets@.push(secret)) == before + first);
            secrets.push(secret);
        } else {
            assert(before + first == before);
        }
        if to < chars.len() {
            proof {
                let behind = raw@.skip(to + 1);
                assert(rest.skip(to - at + 1) == behind);
                assert(before + (first + listed_secrets(behind)) == (before + first)
                    + listed_secrets(behind));
            }
            at = to + 1;
        } else {
            more = false;
        }
    }
    secrets
}

/// The texts that lists of characters hold.
spec fn texts_of_chars(list: Seq<Vec<char>>) -> Seq<Seq<char>> {
    list.map_values(|v: Vec<char>| v@)
}

fn chars_of_all(list: &Vec<String>) -> (r: Vec<Vec<char>>)
    ensures
        texts_of_chars(r@) == texts(list@),
{
    let mut r: Vec<Vec<char>> = Vec::new();
    let mut i: usize = 0;
    while i < list.len()
        invariant
            i <= list@.len(),
            r@.len() == i,
            forall|k: int| 0 <= k < i ==> (#[trigger] r@[k])@ == list@[k]@,
        decreases list@.len() - i,
    {
        r.push(chars_of(list[i].as_str()));
        i += 1;
    }
    assert(texts_of_chars(r@) =~= texts(list@));
    r
}

fn any_empty(secrets: &Vec<Vec<char>>) -> (r: bool)
    ensures
        r == has_empty(texts_of_chars(secrets@)),
{
    let mut i: usize = 0;
    while i < secrets.len()
        invariant
            i <= secrets@.len(),
            forall|k: int| 0 <= k < i ==> (#[trigger] secrets@[k])@.len() > 0,
        decreases secrets@.len() - i,
    {
        if secrets[i].len() == 0 {
            assert(texts_of_chars(secrets@)[i as int].len() == 0);
            return true;
        }
        i += 1;
    }
    false
}

/// Whether the characters of `t` from `at` on are `s`.
fn stands_at(s: &Vec<char>, t: &[char], at: usize) -> (r: bool)
    requires
        at + s@.len() <= t@.len(),
    ensures
        r == (s@ == t@.subrange(at as int, at + s@.len())),
{
    let n: usize = t.len();
    let mut i: usize = 0;
    while i < s.len()
        invariant
            i <= s@.len(),
            at + s@.len() <= t@.len() == n,
            forall|k: int| 0 <= k < i ==> s@[k] == t@[at + k],
        decreases s@.len() - i,
    {
        if s[i] != t[at + i] {
            assert(t@.subrange(at as int, at + s@.len())[i as int] == t@[at + i]);
            return false;
        }
        i += 1;
    }
    assert(s@ =~= t@.subrange(at as int, at + s@.len()));
    true
}

/// Whether the characters of `t` from `at` up to `e` end with a secret.
fn ending_at(secrets: &Vec<Vec<char>>, t: &[char], at: usize, e: usize) -> (r: bool)
    requires
        at <= e <= t@.len(),
    ensures
        r == ends_in_secret(
            texts_of_chars(secrets@),
            t@.subrange(at as int, e as int),
        ),
{
    let ghost specs = texts_of_chars(secrets@);
    let ghost w = t@.subrange(at as int, e as int);
    let mut i: usize = 0;
    while i < secrets.len()
        invariant
            i <= secrets@.len(),
            at <= e <= t@.len(),
            specs == texts_of_chars(secrets@),
            w == t@.subrange(at as int, e as int),
            forall|k: int| 0 <= k < i ==> !(#[trigger] specs[k]).is_suffix_of(w),
        decreases secrets@.len() - i,
    {
        let n: usize = secrets[i].len();
        assert(specs[i as int] == secrets@[i as int]@);
        if n <= e - at {
            assert(w.subrange(w.len() - n, w.len() as int) == t@.subrange(e - n, e as int));
            if stands_at(&secrets[i], t, e - n) {
                assert(specs[i as int].is_suffix_of(w));
                return true;
            }
        }
        i += 1;
    }
    false
}

/// Where the longest end of `t` from `at` on begins that is the beginning of a secret.
fn held_from(secrets: &Vec<Vec<char>>, t: &[char], at: usize) -> (from: usize)
    requires
        at <= t@.len(),
    ensures
        at <= from <= t@.len(),
        from == t@.len() - held(texts_of_chars(secrets@), t@.skip(at as int)),
{
    let ghost specs = texts_of_chars(secrets@);
    let mut from: usize = at;
    while from < t.len()
        invariant
            at <= from <= t@.len(),
            specs == texts_of_chars(secrets@),
            held(specs, t@.skip(at as int)) == held(specs, t@.skip(from as int)),
        decreases t@.len() - from,
    {
        let ghost w = t@.skip(from as int);
        let n: usize = t.len() - from;
        let mut i: usize = 0;
        while i < secrets.len()
            invariant
                i <= secrets@.len(),
                at <= from < t@.len(),
                n == t@.len() - from,
                specs == texts_of_chars(secrets@),
                held(specs, t@.skip(at as int)) == held(specs, w),
                w == t@.skip(from as int),
                forall|k: int|
                    0 <= k < i ==> !(n < (#[trigger] specs[k]).len() && w.is_prefix_of(specs[k])),
            decreases secrets@.len() - i,
        {
            assert(specs[i as int] == secrets@[i as int]@);
            if n < secrets[i].len() && begins_with_rest(&secrets[i], t, from) {
                assert(begins_secret(specs, w));
                return from;
            }
            i += 1;
        }
        assert(!begins_secret(specs, w));
        assert(w.drop_first() == t@.skip(from + 1));
        from += 1;
    }
    assert(held(specs, t@.skip(from as int)) == 0);
    from
}

/// Whether the characters of `t` from `at` on are the beginning of `s`.
fn begins_with_rest(s: &Vec<char>, t: &[char], at: usize) -> (r: bool)
    requires
        at <= t@.len(),
        t@.len() - at < s@.len(),
    ensures
        r == t@.skip(at as int).is_prefix_of(s@),
{
    let ghost w = t@.skip(at as int);
    let mut i: usize = at;
    while i < t.len()
        invariant
            at <= i <= t@.len(),
            t@.len() - at < s@.len(),
            w == t@.skip(at as int),
            forall|k: int| at <= k < i ==> t@[k] == s@[k - at],
        decreases t@.len() - i,
    {
        if t[i] != s[i - at] {
            assert(w[i - at] == t@[i as int]);
            assert(s@.subrange(0, w.len() as int)[i - at] == s@[i - at]);
            return false;
        }
        i += 1;
    }
    assert(w =~= s@.subrange(0, w.len() as int));
    true
}

proof fn lemma_redaction_without_secrets(secrets: Seq<Seq<char>>, t: Seq<char>, mark: Seq<char>)
    requires
        secrets.len() == 0,
    ensures
        redaction(secrets, t, mark) == t,
        tail_start(secrets, t) == 0,
        held(secrets, t) == 0,
{
    assert forall|k: int| 1 <= k <= t.len() implies !ends_in_secret(
        secrets,
        #[trigger] t.take(k),
    ) by {}
    lemma_first_end_none(secrets, t);
    lemma_held(secrets, t);
}

} // verus!
