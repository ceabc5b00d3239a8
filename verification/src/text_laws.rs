//! What holds of the text helpers.

use crate::text::{
    decimal_digits, is_white_space, joined, path_join, signed_digits, text_less, trimmed,
    trimmed_end, trimmed_start, word_len, words,
};
use vstd::prelude::*;

verus! {

/// Whether all characters of `s` are white space.
pub open spec fn is_blank(s: Seq<char>) -> bool {
    forall|i: int| 0 <= i < s.len() ==> is_white_space(#[trigger] s[i])
}

/// Whether no character of `s` is white space.
pub open spec fn is_solid(s: Seq<char>) -> bool {
    forall|i: int| 0 <= i < s.len() ==> !is_white_space(#[trigger] s[i])
}

/// Whether `s` neither begins nor ends with white space.
pub open spec fn is_tight(s: Seq<char>) -> bool {
    s.len() > 0 ==> !is_white_space(s[0]) && !is_white_space(s.last())
}

/// Among the ASCII characters the white space is that of a blank, a tab and the four that end
/// a line or a page.
pub proof fn law_ascii_white_space(c: char)
    requires
        (c as int) < 128,
    ensures
        is_white_space(c) <==> c == ' ' || c == '\t' || c == '\n' || c == '\u{b}' || c == '\u{c}'
            || c == '\r',
{
}

/// Beyond the ASCII characters the white space is that of the Unicode property `White_Space`.
pub proof fn law_white_space_beyond_ascii(c: char)
    requires
        c as int >= 128,
    ensures
        is_white_space(c) <==> c as int == 0x85 || c as int == 0xa0 || c as int == 0x1680
            || 0x2000 <= c as int <= 0x200a || 0x2028 <= c as int <= 0x2029 || c as int == 0x202f
            || c as int == 0x205f || c as int == 0x3000,
{
}

proof fn lemma_trimmed_start(a: Seq<char>, s: Seq<char>)
    requires
        is_blank(a),
        s.len() > 0 ==> !is_white_space(s[0]),
    ensures
        trimmed_start(a + s) == s,
    decreases a.len(),
{
    if a.len() == 0 {
        assert(a + s == s);
    } else {
        assert((a + s)[0] == a[0]);
        assert((a + s).drop_first() == a.drop_first() + s);
        assert forall|i: int| 0 <= i < a.drop_first().len() implies is_white_space(
            #[trigger] a.drop_first()[i],
        ) by {
            assert(a.drop_first()[i] == a[i + 1]);
        }
        lemma_trimmed_start(a.drop_first(), s);
    }
}

proof fn lemma_trimmed_end(s: Seq<char>, b: Seq<char>)
    requires
        is_blank(b),
        s.len() > 0 ==> !is_white_space(s.last()),
    ensures
        trimmed_end(s + b) == s,
    decreases b.len(),
{
    if b.len() == 0 {
        assert(s + b == s);
    } else {
        assert((s + b).last() == b.last());
        assert(b.last() == b[b.len() - 1]);
        assert((s + b).drop_last() == s + b.drop_last());
        assert forall|i: int| 0 <= i < b.drop_last().len() implies is_white_space(
            #[trigger] b.drop_last()[i],
        ) by {
            assert(b.drop_last()[i] == b[i]);
        }
        lemma_trimmed_end(s, b.drop_last());
    }
}

/// Trimming takes away the white space around a text and nothing else.
pub proof fn law_trimming_removes_the_white_space_around(a: Seq<char>, s: Seq<char>, b: Seq<char>)
    requires
        is_blank(a),
        is_blank(b),
        is_tight(s),
    ensures
        trimmed(a + s + b) == s,
{
    if s.len() == 0 {
        let all = a + s + b;
        assert(all == a + b);
        assert(all + Seq::<char>::empty() == all);
        lemma_trimmed_start(all, Seq::empty());
    } else {
        assert(a + s + b == a + (s + b));
        assert((s + b)[0] == s[0]);
        lemma_trimmed_start(a, s + b);
        lemma_trimmed_end(s, b);
    }
}

/// Every text is what is left of it by trimming, with white space around it.
pub proof fn law_trimmed_text_stands_in_the_text(s: Seq<char>) -> (around: (Seq<char>, Seq<char>))
    ensures
        is_blank(around.0),
        is_blank(around.1),
        is_tight(trimmed(s)),
        s == around.0 + trimmed(s) + around.1,
{
    let a = lemma_cut_start(s);
    let b = lemma_cut_end(trimmed_start(s));
    let t = trimmed(s);
    assert(s == a + (t + b));
    assert(s == a + t + b);
    if t.len() > 0 {
        assert(trimmed_start(s)[0] == t[0]);
    }
    (a, b)
}

proof fn lemma_cut_start(s: Seq<char>) -> (a: Seq<char>)
    ensures
        is_blank(a),
        s == a + trimmed_start(s),
        trimmed_start(s).len() > 0 ==> !is_white_space(trimmed_start(s)[0]),
    decreases s.len(),
{
    if s.len() > 0 && is_white_space(s[0]) {
        let rest = lemma_cut_start(s.drop_first());
        let a = seq![s[0]] + rest;
        assert(s == seq![s[0]] + s.drop_first());
        assert(s == a + trimmed_start(s));
        a
    } else {
        assert(s == Seq::<char>::empty() + s);
        Seq::empty()
    }
}

proof fn lemma_cut_end(s: Seq<char>) -> (b: Seq<char>)
    ensures
        is_blank(b),
        s == trimmed_end(s) + b,
        trimmed_end(s).len() > 0 ==> !is_white_space(trimmed_end(s).last()),
    decreases s.len(),
{
    if s.len() > 0 && is_white_space(s.last()) {
        let rest = lemma_cut_end(s.drop_last());
        let b = rest.push(s.last());
        assert(s == s.drop_last().push(s.last()));
        assert(s == trimmed_end(s) + b);
        b
    } else {
        assert(s == s + Seq::<char>::empty());
        Seq::empty()
    }
}

proof fn lemma_word_len_is(s: Seq<char>, n: int)
    requires
        0 <= n <= s.len(),
        forall|k: int| 0 <= k < n ==> !is_white_space(#[trigger] s[k]),
        n < s.len() ==> is_white_space(s[n]),
    ensures
        word_len(s) == n,
    decreases s.len(),
{
    if n > 0 {
        let rest = s.drop_first();
        assert(!is_white_space(s[0]));
        assert forall|k: int| 0 <= k < n - 1 implies !is_white_space(#[trigger] rest[k]) by {
            assert(rest[k] == s[k + 1]);
        }
        lemma_word_len_is(rest, n - 1);
    }
}

/// A text without white space is one word.
pub proof fn law_solid_text_is_one_word(w: Seq<char>)
    requires
        w.len() > 0,
        is_solid(w),
    ensures
        words(w) == seq![w],
{
    lemma_word_len_is(w, w.len() as int);
    assert(!is_white_space(w[0]));
    assert(w.take(w.len() as int) == w);
    assert(words(w.skip(w.len() as int)) =~= seq![]);
    assert(words(w) =~= seq![w]);
}

/// A text without a character but white space has no word.
pub proof fn law_blank_text_has_no_word(s: Seq<char>)
    requires
        is_blank(s),
    ensures
        words(s).len() == 0,
    decreases s.len(),
{
    if s.len() > 0 {
        assert(is_white_space(s[0]));
        let rest = s.drop_first();
        assert forall|i: int| 0 <= i < rest.len() implies is_white_space(#[trigger] rest[i]) by {
            assert(rest[i] == s[i + 1]);
        }
        law_blank_text_has_no_word(rest);
    }
}

/// A text has no word only where all its characters are white space.
pub proof fn law_text_without_a_word_is_blank(s: Seq<char>)
    requires
        words(s).len() == 0,
    ensures
        is_blank(s),
    decreases s.len(),
{
    if s.len() > 0 {
        let rest = s.drop_first();
        assert(is_white_space(s[0]));
        law_text_without_a_word_is_blank(rest);
        assert forall|i: int| 0 <= i < s.len() implies is_white_space(#[trigger] s[i]) by {
            if i > 0 {
                assert(s[i] == rest[i - 1]);
            }
        }
    }
}

/// White space separates words: the words of two texts with white space between them are those
/// of the one and then those of the other.
pub proof fn law_white_space_separates_words(a: Seq<char>, c: char, b: Seq<char>)
    requires
        is_white_space(c),
    ensures
        words(a.push(c) + b) == words(a) + words(b),
    decreases a.len(),
{
    let s = a.push(c) + b;
    if a.len() == 0 {
        assert(s[0] == c);
        assert(s.drop_first() == b);
        assert(words(a) + words(b) =~= words(b));
    } else if is_white_space(a[0]) {
        assert(s[0] == a[0]);
        assert(s.drop_first() == a.drop_first().push(c) + b);
        law_white_space_separates_words(a.drop_first(), c, b);
    } else {
        crate::text::lemma_word_len(a);
        let n = word_len(a) as int;
        assert forall|k: int| 0 <= k < n implies !is_white_space(#[trigger] s[k]) by {
            assert(s[k] == a[k]);
        }
        if n < a.len() {
            assert(s[n] == a[n]);
        } else {
            assert(s[n] == c);
        }
        lemma_word_len_is(s, n);
        assert(s[0] == a[0]);
        assert(s.take(n) == a.take(n));
        assert(s.skip(n) == a.skip(n).push(c) + b);
        law_white_space_separates_words(a.skip(n), c, b);
        assert(words(s) =~= words(a) + words(b));
    }
}

/// No word is empty or holds white space.
pub proof fn law_words_are_solid(s: Seq<char>, i: int)
    requires
        0 <= i < words(s).len(),
    ensures
        words(s)[i].len() > 0,
        is_solid(words(s)[i]),
    decreases s.len(),
{
    if is_white_space(s[0]) {
        law_words_are_solid(s.drop_first(), i);
    } else {
        crate::text::lemma_word_len(s);
        let n = word_len(s) as int;
        if i == 0 {
            assert(words(s)[0] == s.take(n));
        } else {
            assert(words(s)[i] == words(s.skip(n))[i - 1]);
            law_words_are_solid(s.skip(n), i - 1);
        }
    }
}

/// The number that decimal digits stand for.
pub open spec fn number_of(digits: Seq<char>) -> int
    decreases digits.len(),
{
    if digits.len() == 0 {
        0
    } else {
        10 * number_of(digits.drop_last()) + (digits.last() as int - '0' as int)
    }
}

/// Decimal digits stand for the number, are digits, and have no leading zero but that of the
/// number zero.
pub proof fn law_decimal_digits_stand_for_the_number(n: nat)
    ensures
        number_of(decimal_digits(n)) == n,
        decimal_digits(n).len() > 0,
        forall|i: int|
            0 <= i < decimal_digits(n).len() ==> '0' <= #[trigger] decimal_digits(n)[i] <= '9',
        n > 0 ==> decimal_digits(n)[0] != '0',
        n == 0 ==> decimal_digits(n) == seq!['0'],
    decreases n,
{
    let s = decimal_digits(n);
    if n < 10 {
        assert(s.drop_last() =~= seq![]);
        assert(number_of(s.drop_last()) == 0);
        assert(s[0] as int == 48 + n);
    } else {
        law_decimal_digits_stand_for_the_number(n / 10);
        let before = decimal_digits(n / 10);
        assert(s.drop_last() =~= before);
        assert(s.last() as int == 48 + n % 10);
        assert forall|i: int| 0 <= i < s.len() implies '0' <= #[trigger] s[i] <= '9' by {
            if i < before.len() {
                assert(s[i] == before[i]);
            }
        }
        assert(s[0] == before[0]);
    }
}

/// A signed number is written as its digits, with a minus sign before them exactly where it is
/// negative.
pub proof fn law_signed_digits(n: int)
    ensures
        n >= 0 ==> number_of(signed_digits(n)) == n && signed_digits(n)[0] != '-',
        n < 0 ==> signed_digits(n)[0] == '-' && number_of(signed_digits(n).drop_first()) == -n,
        n >= 0 ==> signed_digits(n) == decimal_digits(n as nat),
        n < 0 ==> signed_digits(n) == seq!['-'] + decimal_digits((-n) as nat),
{
    if n >= 0 {
        law_decimal_digits_stand_for_the_number(n as nat);
        assert('0' <= decimal_digits(n as nat)[0] <= '9');
    } else {
        law_decimal_digits_stand_for_the_number((-n) as nat);
        assert(signed_digits(n).drop_first() =~= decimal_digits((-n) as nat));
    }
}

/// Texts are ordered by the first character in which they differ.
pub proof fn law_first_difference_orders_texts(
    same: Seq<char>,
    x: char,
    a: Seq<char>,
    y: char,
    b: Seq<char>,
)
    requires
        x != y,
    ensures
        text_less(same.push(x) + a, same.push(y) + b) <==> x < y,
    decreases same.len(),
{
    let s = same.push(x) + a;
    let t = same.push(y) + b;
    if same.len() > 0 {
        assert(s[0] == same[0] && t[0] == same[0]);
        assert(s.drop_first() == same.drop_first().push(x) + a);
        assert(t.drop_first() == same.drop_first().push(y) + b);
        law_first_difference_orders_texts(same.drop_first(), x, a, y, b);
    } else {
        assert(s[0] == x && t[0] == y);
    }
}

/// A text comes before every longer one that begins with it, and not before itself.
pub proof fn law_beginning_comes_first(s: Seq<char>, more: Seq<char>)
    ensures
        text_less(s, s + more) <==> more.len() > 0,
        !text_less(s + more, s),
    decreases s.len(),
{
    if s.len() > 0 {
        let t = s + more;
        assert(t[0] == s[0]);
        assert(t.drop_first() == s.drop_first() + more);
        law_beginning_comes_first(s.drop_first(), more);
    } else {
        assert(s + more == more);
    }
}

/// A relative path under a directory is that of the directory, one separator and the path; an
/// absolute path stands for itself wherever it is.
pub proof fn law_paths_are_joined_by_one_separator(base: Seq<char>, rest: Seq<char>)
    ensures
        rest.len() > 0 && rest[0] == '/' ==> path_join(base, rest) == rest,
        !(rest.len() > 0 && rest[0] == '/') ==> {
            &&& path_join(Seq::<char>::empty(), rest) == rest
            &&& path_join(base.push('/'), rest) == base + seq!['/'] + rest
            &&& base.len() > 0 && base.last() != '/' ==> path_join(base, rest) == base + seq!['/']
                + rest
        },
{
    assert(base.push('/') == base + seq!['/']);
    assert(Seq::<char>::empty() + rest == rest);
}

/// The characters of a list of texts are those of its texts, in order.
pub proof fn law_joined_texts_stand_in_order(a: Seq<Seq<char>>, b: Seq<Seq<char>>, s: Seq<char>)
    ensures
        joined(seq![s]) == s,
        joined(a + b) == joined(a) + joined(b),
        joined(Seq::<Seq<char>>::empty()).len() == 0,
    decreases b.len(),
{
    assert(seq![s].drop_last() =~= Seq::<Seq<char>>::empty());
    assert(joined(seq![s].drop_last()) =~= Seq::<char>::empty());
    assert(joined(seq![s]) =~= s);
    if b.len() == 0 {
        assert(a + b == a);
        assert(joined(a) + joined(b) =~= joined(a));
    } else {
        law_joined_texts_stand_in_order(a, b.drop_last(), s);
        assert((a + b).drop_last() == a + b.drop_last());
        assert(joined(a + b) =~= joined(a) + joined(b));
    }
}

} // verus!
