//! What holds of the secrets file and of what is held back for its secrets.

use crate::output_pump::{held_back, read_on, PumpView};
use crate::redaction::{
    begins_secret, ends_in_secret, has_empty, held, lemma_first_end_is, lemma_held, lemma_line_len,
    lemma_longest_ending, lemma_stable_chars, lemma_tail_start, line_len, listed_secrets,
    longest_ending, redaction, stable_chars, tail_start,
};
use crate::text::trimmed;
use crate::text_laws::{
    is_blank, is_tight, law_trimmed_text_stands_in_the_text,
    law_trimming_removes_the_white_space_around,
};
use crate::utf8_input::{incomplete_scalar, lemma_valid_up_to, readable, valid_up_to};
use vstd::prelude::*;
use vstd::utf8::*;

verus! {

/// Whether `s` has no line break.
pub open spec fn is_one_line(s: Seq<char>) -> bool {
    forall|i: int| 0 <= i < s.len() ==> #[trigger] s[i] != '\n'
}

proof fn lemma_line_len_is(s: Seq<char>, n: int)
    requires
        0 <= n <= s.len(),
        forall|k: int| 0 <= k < n ==> #[trigger] s[k] != '\n',
        n < s.len() ==> s[n] == '\n',
    ensures
        line_len(s) == n,
    decreases s.len(),
{
    if n > 0 {
        let rest = s.drop_first();
        assert(s[0] != '\n');
        assert forall|k: int| 0 <= k < n - 1 implies #[trigger] rest[k] != '\n' by {
            assert(rest[k] == s[k + 1]);
        }
        lemma_line_len_is(rest, n - 1);
    }
}

/// A line lists one secret, whole: what stands on it without the white space around it.
pub proof fn law_line_lists_what_stands_on_it(before: Seq<char>, s: Seq<char>, after: Seq<char>)
    requires
        is_blank(before),
        is_blank(after),
        is_one_line(before),
        is_one_line(s),
        is_one_line(after),
        is_tight(s),
    ensures
        s.len() > 0 ==> listed_secrets(before + s + after) == seq![s],
        s.len() == 0 ==> listed_secrets(before + s + after).len() == 0,
{
    let line = before + s + after;
    assert forall|k: int| 0 <= k < line.len() implies #[trigger] line[k] != '\n' by {
        if k < before.len() {
            assert(line[k] == before[k]);
        } else if k < before.len() + s.len() {
            assert(line[k] == s[k - before.len()]);
        } else {
            assert(line[k] == after[k - before.len() - s.len()]);
        }
    }
    lemma_line_len_is(line, line.len() as int);
    assert(line.take(line.len() as int) == line);
    law_trimming_removes_the_white_space_around(before, s, after);
}

/// A secrets file is read line by line: two files with a line break between them list the
/// secrets of the one and then those of the other.
pub proof fn law_lines_list_their_secrets_in_order(a: Seq<char>, b: Seq<char>)
    ensures
        listed_secrets(a.push('\n') + b) == listed_secrets(a) + listed_secrets(b),
    decreases a.len(),
{
    let s = a.push('\n') + b;
    lemma_line_len(a);
    let n = line_len(a) as int;
    assert forall|k: int| 0 <= k < n implies #[trigger] s[k] != '\n' by {
        assert(s[k] == a[k]);
    }
    if n < a.len() {
        assert(s[n] == a[n]);
    } else {
        assert(s[n] == '\n');
    }
    lemma_line_len_is(s, n);
    assert(s.take(n) == a.take(n));
    let line = trimmed(a.take(n));
    let first: Seq<Seq<char>> = if line.len() == 0 {
        seq![]
    } else {
        seq![line]
    };
    if n < a.len() {
        assert(s.skip(n + 1) == a.skip(n + 1).push('\n') + b);
        law_lines_list_their_secrets_in_order(a.skip(n + 1), b);
        assert(first + (listed_secrets(a.skip(n + 1)) + listed_secrets(b)) == first
            + listed_secrets(a.skip(n + 1)) + listed_secrets(b));
    } else {
        assert(s.skip(n + 1) == b);
    }
}

/// A line of a file is listed whole, wherever it stands: what comes before it lists its own
/// secrets before it, and what comes behind it lists them behind it.
pub proof fn law_line_of_a_file_is_listed_whole(
    above: Seq<char>,
    before: Seq<char>,
    s: Seq<char>,
    after: Seq<char>,
    below: Seq<char>,
)
    requires
        is_blank(before),
        is_blank(after),
        is_one_line(before),
        is_one_line(s),
        is_one_line(after),
        is_tight(s),
        s.len() > 0,
    ensures
        listed_secrets((before + s + after).push('\n')) == seq![s],
        listed_secrets(above.push('\n') + ((before + s + after).push('\n') + below))
            == listed_secrets(above) + seq![s] + listed_secrets(below),
{
    let line = before + s + after;
    let none = Seq::<char>::empty();
    law_line_lists_what_stands_on_it(before, s, after);
    law_line_lists_what_stands_on_it(none, none, none);
    assert(none + none + none == none);
    law_lines_list_their_secrets_in_order(line, none);
    assert(line.push('\n') + none == line.push('\n'));
    assert(seq![s] + listed_secrets(none) == seq![s]);
    law_lines_list_their_secrets_in_order(line, below);
    law_lines_list_their_secrets_in_order(above, line.push('\n') + below);
    assert(listed_secrets(above) + (seq![s] + listed_secrets(below)) == listed_secrets(above)
        + seq![s] + listed_secrets(below));
}

/// Every listed secret is a whole line of the file, without the white space around it: the line
/// goes from `at.0` to `at.3`, and the secret stands on it from `at.1` to `at.2`.
pub proof fn law_listed_secret_is_a_line(raw: Seq<char>, i: int) -> (at: (int, int, int, int))
    requires
        0 <= i < listed_secrets(raw).len(),
    ensures
        0 <= at.0 <= at.1 < at.2 <= at.3 <= raw.len(),
        at.0 == 0 || raw[at.0 - 1] == '\n',
        at.3 == raw.len() || raw[at.3] == '\n',
        is_one_line(raw.subrange(at.0, at.3)),
        is_blank(raw.subrange(at.0, at.1)),
        is_blank(raw.subrange(at.2, at.3)),
        is_tight(raw.subrange(at.1, at.2)),
        listed_secrets(raw)[i] == raw.subrange(at.1, at.2),
    decreases raw.len(),
{
    lemma_line_len(raw);
    let n = line_len(raw) as int;
    let whole = raw.take(n);
    let line = trimmed(whole);
    let first: Seq<Seq<char>> = if line.len() == 0 {
        seq![]
    } else {
        seq![line]
    };
    if line.len() > 0 && i == 0 {
        let (a, b) = law_trimmed_text_stands_in_the_text(whole);
        let p = a.len() as int;
        let q = p + line.len();
        assert(raw.subrange(0, p) == whole.subrange(0, p));
        assert(whole.subrange(0, p) == a);
        assert(raw.subrange(q, n) == whole.subrange(q, n));
        assert(whole.subrange(q, n) == b);
        assert(raw.subrange(p, q) == whole.subrange(p, q));
        assert(whole.subrange(p, q) == line);
        (0, p, q, n)
    } else {
        let rest = raw.skip(n + 1);
        let k = i - first.len();
        assert(listed_secrets(raw)[i] == listed_secrets(rest)[k]);
        let at = law_listed_secret_is_a_line(rest, k);
        let d = n + 1;
        assert(raw.subrange(at.0 + d, at.3 + d) == rest.subrange(at.0, at.3));
        assert(raw.subrange(at.0 + d, at.1 + d) == rest.subrange(at.0, at.1));
        assert(raw.subrange(at.2 + d, at.3 + d) == rest.subrange(at.2, at.3));
        assert(raw.subrange(at.1 + d, at.2 + d) == rest.subrange(at.1, at.2));
        if at.0 > 0 {
            assert(raw[at.0 + d - 1] == rest[at.0 - 1]);
        }
        if at.3 < rest.len() {
            assert(raw[at.3 + d] == rest[at.3]);
        }
        (at.0 + d, at.1 + d, at.2 + d, at.3 + d)
    }
}

/// Nothing is held back for long: what is not stable yet is the beginning of a secret, shorter
/// than the secret.
pub proof fn law_only_the_beginning_of_a_secret_is_unstable(secrets: Seq<Seq<char>>, t: Seq<char>)
    ensures
        0 <= stable_chars(secrets, t) <= t.len(),
        stable_chars(secrets, t) < t.len() ==> exists|i: int|
            {
                &&& 0 <= i < secrets.len()
                &&& t.len() - stable_chars(secrets, t) < (#[trigger] secrets[i]).len()
                &&& t.skip(stable_chars(secrets, t)) == secrets[i].take(
                    t.len() - stable_chars(secrets, t),
                )
            },
{
    lemma_stable_chars(secrets, t);
    if stable_chars(secrets, t) < t.len() {
        let start = tail_start(secrets, t);
        lemma_tail_start(secrets, t);
        let tail = t.skip(start);
        lemma_held(secrets, tail);
        let h = held(secrets, tail) as int;
        assert(tail.skip(tail.len() - h) == t.skip(t.len() - h));
        let w = t.skip(t.len() - h);
        let i = choose|i: int|
            0 <= i < secrets.len() && w.len() < (#[trigger] secrets[i]).len() && w.is_prefix_of(
                secrets[i],
            );
        assert(w == secrets[i].subrange(0, w.len() as int));
        assert(secrets[i].take(h) == secrets[i].subrange(0, h));
    }
}

/// Output is passed on as soon as it can be: what a pump holds back is at most the beginning of
/// one character, and of the text before it the beginning of one secret.
pub proof fn law_pump_holds_back_no_more_than_it_has_to(
    secrets: Seq<Seq<char>>,
    st: PumpView,
    chunk: Seq<u8>,
)
    requires
        readable(st.bytes + chunk),
    ensures
        ({
            let kept = held_back(secrets, st, chunk);
            &&& kept.bytes.len() > 0 ==> exists|c: char|
                kept.bytes.len() < (#[trigger] encode_scalar(c as u32)).len()
                    && kept.bytes.is_prefix_of(encode_scalar(c as u32))
            &&& kept.text.len() > 0 ==> exists|i: int|
                {
                    &&& 0 <= i < secrets.len()
                    &&& kept.text.len() < (#[trigger] secrets[i]).len()
                    &&& kept.text == secrets[i].take(kept.text.len() as int)
                }
        }),
{
    let bytes = st.bytes + chunk;
    lemma_valid_up_to(bytes);
    let t = read_on(st, chunk);
    law_only_the_beginning_of_a_secret_is_unstable(secrets, t);
    let kept = held_back(secrets, st, chunk);
    if kept.bytes.len() > 0 {
        assert(incomplete_scalar(kept.bytes));
    }
}

/// A text with no secret in it goes out as it is. No secret is empty.
pub proof fn law_text_without_a_secret_is_not_changed(
    secrets: Seq<Seq<char>>,
    t: Seq<char>,
    mark: Seq<char>,
)
    requires
        !has_empty(secrets),
        forall|i: int, from: int, to: int|
            0 <= i < secrets.len() && 0 <= from <= to <= t.len() ==> #[trigger] t.subrange(
                from,
                to,
            ) != #[trigger] secrets[i],
    ensures
        redaction(secrets, t, mark) == t,
{
    assert forall|k: int| 1 <= k <= t.len() implies !ends_in_secret(
        secrets,
        #[trigger] t.take(k),
    ) by {
        if ends_in_secret(secrets, t.take(k)) {
            let i = choose|i: int|
                0 <= i < secrets.len() && (#[trigger] secrets[i]).is_suffix_of(t.take(k));
            let s = secrets[i];
            assert(t.take(k).subrange(k - s.len(), k) == t.subrange(k - s.len(), k));
            assert(t.subrange(k - s.len(), k) == s);
        }
    }
    crate::redaction::lemma_first_end(secrets, t, 1);
    if let Some(e) = crate::redaction::first_end(secrets, t, 1) {
        assert(!ends_in_secret(secrets, t.take(e)));
    }
}

/// The end of a text that may become a secret is the longest one that begins a secret.
pub proof fn law_trailing_beginning_of_a_secret(secrets: Seq<Seq<char>>, t: Seq<char>, from: int)
    requires
        0 <= from < t.len(),
    ensures
        held(secrets, t) <= t.len(),
        held(secrets, t) > 0 ==> exists|i: int|
            {
                &&& 0 <= i < secrets.len()
                &&& held(secrets, t) < (#[trigger] secrets[i]).len()
                &&& t.skip(t.len() - held(secrets, t)) == secrets[i].take(held(secrets, t) as int)
            },
        (exists|i: int|
            0 <= i < secrets.len() && t.len() - from < (#[trigger] secrets[i]).len() && t.skip(from)
                == secrets[i].take(t.len() - from)) ==> t.len() - from <= held(secrets, t),
{
    lemma_held(secrets, t);
    let h = held(secrets, t) as int;
    if h > 0 {
        let w = t.skip(t.len() - h);
        let i = choose|i: int|
            0 <= i < secrets.len() && w.len() < (#[trigger] secrets[i]).len() && w.is_prefix_of(
                secrets[i],
            );
        assert(w == secrets[i].subrange(0, w.len() as int));
        assert(secrets[i].take(h) == secrets[i].subrange(0, h));
    }
    if exists|i: int|
        0 <= i < secrets.len() && t.len() - from < (#[trigger] secrets[i]).len() && t.skip(from)
            == secrets[i].take(t.len() - from) {
        let i = choose|i: int|
            0 <= i < secrets.len() && t.len() - from < (#[trigger] secrets[i]).len() && t.skip(from)
                == secrets[i].take(t.len() - from);
        assert(secrets[i].take(t.len() - from) == secrets[i].subrange(0, t.len() - from));
        assert(begins_secret(secrets, t.skip(from)));
    }
}

/// Bytes are refused exactly where nothing that may follow makes them UTF-8.
pub proof fn law_refused_bytes_cannot_become_text(bytes: Seq<u8>)
    ensures
        readable(bytes) <==> exists|more: Seq<u8>| valid_utf8(#[trigger] (bytes + more)),
{
    let v = valid_up_to(bytes);
    lemma_valid_up_to(bytes);
    if readable(bytes) {
        if valid_utf8(bytes) {
            assert(bytes + Seq::<u8>::empty() == bytes);
            assert(valid_utf8(bytes + Seq::<u8>::empty()));
        } else {
            let rest = bytes.skip(v);
            let c = choose|c: char|
                rest.len() < (#[trigger] encode_scalar(c as u32)).len() && rest.is_prefix_of(
                    encode_scalar(c as u32),
                );
            let all = encode_scalar(c as u32);
            let more = all.skip(rest.len() as int);
            assert(rest + more == all);
            let text = seq![c];
            encode_utf8_valid_utf8(text);
            assert(text.drop_first() =~= Seq::<char>::empty());
            assert(encode_utf8(text.drop_first()) =~= Seq::<u8>::empty());
            assert(encode_utf8(text) =~= all);
            valid_utf8_concat(bytes.take(v), all);
            assert(bytes + more == bytes.take(v) + all);
            assert(valid_utf8(bytes + more));
        }
    } else {
        assert forall|more: Seq<u8>| !valid_utf8(#[trigger] (bytes + more)) by {
            crate::output_pump::lemma_unreadable_stays(bytes, more);
        }
    }
}

/// The secret that is complete first is replaced, and reading goes on behind it: of a text that
/// has a secret in it, up to whose end no other secret is complete and none that is longer ends
/// with it, the part before the secret is kept and the secret becomes the mark.
pub proof fn law_first_secret_becomes_the_mark(
    secrets: Seq<Seq<char>>,
    before: Seq<char>,
    s: Seq<char>,
    behind: Seq<char>,
    mark: Seq<char>,
)
    requires
        !has_empty(secrets),
        secrets.contains(s),
        forall|i: int, from: int, to: int|
            0 <= i < secrets.len() && 0 <= from <= to < before.len() + s.len()
                ==> #[trigger] (before + s).subrange(from, to) != #[trigger] secrets[i],
        forall|i: int|
            0 <= i < secrets.len() && s.len() < (#[trigger] secrets[i]).len() <= before.len()
                + s.len() ==> (before + s).skip(before.len() + s.len() - secrets[i].len())
                != secrets[i],
    ensures
        redaction(secrets, before + s + behind, mark) == before + mark + redaction(
            secrets,
            behind,
            mark,
        ),
{
    let t = before + s + behind;
    let head = before + s;
    let e = head.len() as int;
    let n = secrets.index_of(s);
    assert(secrets[n] == s);
    assert(s.len() > 0);
    assert(t.take(e) == head);
    assert(t.skip(e) == behind);
    assert(s == head.subrange(e - s.len(), e));
    assert(secrets[n].is_suffix_of(t.take(e)));
    assert forall|k: int| 1 <= k < e implies !ends_in_secret(secrets, #[trigger] t.take(k)) by {
        if ends_in_secret(secrets, t.take(k)) {
            let i = choose|i: int|
                0 <= i < secrets.len() && (#[trigger] secrets[i]).is_suffix_of(t.take(k));
            let w = secrets[i];
            assert(w == t.take(k).subrange(k - w.len(), k));
            assert(t.take(k).subrange(k - w.len(), k) == head.subrange(k - w.len(), k));
            assert(head.subrange(k - w.len(), k) != secrets[i]);
        }
    }
    lemma_first_end_is(secrets, t, e);
    lemma_longest_ending(secrets, head);
    let l = longest_ending(secrets, head) as int;
    if l > s.len() {
        let i = choose|i: int|
            0 <= i < secrets.len() && (#[trigger] secrets[i]).is_suffix_of(head) && secrets[i].len()
                == l;
        assert(secrets[i] == head.subrange(e - l, e));
        assert(head.skip(e - l) == head.subrange(e - l, e));
    }
    assert(l == s.len());
    assert(t.take(e - l) == before);
}

/// A secret alone becomes the mark, where it is the only one.
pub proof fn law_secret_alone_becomes_the_mark(s: Seq<char>, mark: Seq<char>)
    requires
        s.len() > 0,
    ensures
        redaction(seq![s], s, mark) == mark,
{
    let none = Seq::<char>::empty();
    let secrets = seq![s];
    assert(secrets[0] == s);
    assert(secrets.contains(s));
    assert(none + s == s);
    assert(none + s + none == s);
    law_first_secret_becomes_the_mark(secrets, none, s, none, mark);
    law_text_without_a_secret_is_not_changed(secrets, none, mark);
    assert(none + mark + none == mark);
}

/// With an empty secret there is a mark before every character and at the end.
pub proof fn law_empty_secret_is_everywhere(
    secrets: Seq<Seq<char>>,
    c: char,
    t: Seq<char>,
    mark: Seq<char>,
)
    requires
        secrets.contains(Seq::<char>::empty()),
    ensures
        redaction(secrets, Seq::<char>::empty(), mark) == mark,
        redaction(secrets, seq![c] + t, mark) == mark + seq![c] + redaction(secrets, t, mark),
        stable_chars(secrets, t) == t.len(),
{
    let i = secrets.index_of(Seq::<char>::empty());
    assert(secrets[i].len() == 0);
    let s = seq![c] + t;
    assert(s.drop_first() == t);
    assert(mark.push(c) == mark + seq![c]);
}

} // verus!
