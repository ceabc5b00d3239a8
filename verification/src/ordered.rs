//! Lists of texts in ascending order, each text once.

use crate::text::{
    comes_before, lemma_text_less_irreflexive, lemma_text_less_total, lemma_text_less_transitive,
    same_text, text_less, texts,
};
use vstd::prelude::*;

verus! {

/// Whether the texts stand in ascending order, each of them once.
pub open spec fn ascending(list: Seq<Seq<char>>) -> bool {
    forall|i: int, j: int| 0 <= i < j < list.len() ==> text_less(#[trigger] list[i], #[trigger] list[j])
}

/// The first place at which `item` can stand in an ascending list.
pub fn place_of(list: &Vec<String>, item: &str) -> (at: usize)
    requires
        ascending(texts(list@)),
    ensures
        at <= list@.len(),
        forall|i: int| 0 <= i < at ==> text_less(#[trigger] list@[i]@, item@),
        forall|i: int| at <= i < list@.len() ==> !text_less(#[trigger] list@[i]@, item@),
        at < list@.len() && list@[at as int]@ == item@ <==> texts(list@).contains(item@),
{
    let mut at: usize = 0;
    while at < list.len() && comes_before(list[at].as_str(), item)
        invariant
            at <= list@.len(),
            forall|i: int| 0 <= i < at ==> text_less(#[trigger] list@[i]@, item@),
        decreases list@.len() - at,
    {
        at += 1;
    }
    proof {
        let all = texts(list@);
        assert forall|i: int| at <= i < list@.len() implies !text_less(
            #[trigger] list@[i]@,
            item@,
        ) by {
            if at < i && text_less(list@[i]@, item@) {
                assert(text_less(all[at as int], all[i]));
                lemma_text_less_transitive(list@[at as int]@, list@[i]@, item@);
            }
        }
        if all.contains(item@) {
            let i = choose|i: int| 0 <= i < all.len() && all[i] == item@;
            lemma_text_less_irreflexive(item@);
            assert(list@[i]@ == item@);
            assert(at <= i);
            if at < i {
                assert(text_less(all[at as int], all[i]));
            }
        }
        if at < list@.len() && list@[at as int]@ == item@ {
            assert(all[at as int] == item@);
        }
    }
    at
}

/// Puts `item` where it belongs, unless it is there already.
pub fn insert_text(list: &mut Vec<String>, item: String)
    requires
        ascending(texts(old(list)@)),
    ensures
        ascending(texts(final(list)@)),
        forall|t: Seq<char>| #[trigger] texts(final(list)@).contains(t) <==> texts(old(list)@).contains(
            t,
        ) || t == item@,
{
    let at: usize = place_of(list, item.as_str());
    let ghost before = list@;
    if at < list.len() && same_text(list[at].as_str(), item.as_str()) {
        return;
    }
    let ghost it = item@;
    list.insert(at, item);
    proof {
        let new = texts(list@);
        let old_texts = texts(before);
        assert(list@ == before.insert(at as int, item));
        assert forall|i: int, j: int| 0 <= i < j < new.len() implies text_less(
            #[trigger] new[i],
            #[trigger] new[j],
        ) by {
            let oi = if i < at { i } else { i - 1 };
            let oj = if j < at { j } else { j - 1 };
            if i != at && j != at {
                assert(new[i] == old_texts[oi] && new[j] == old_texts[oj]);
            } else if j == at {
                assert(new[i] == before[i]@);
            } else {
                assert(new[j] == before[oj]@);
                lemma_text_less_total(it, before[oj]@);
                if before[oj]@ == it {
                    assert(old_texts[oj] == it);
                    assert(old_texts.contains(it));
                }
            }
        }
        assert forall|t: Seq<char>| #[trigger] new.contains(t) <==> old_texts.contains(t) || t
            == it by {
            if new.contains(t) {
                let i = choose|i: int| 0 <= i < new.len() && new[i] == t;
                if i < at {
                    assert(old_texts[i] == t);
                } else if i > at {
                    assert(old_texts[i - 1] == t);
                }
            }
            if old_texts.contains(t) {
                let i = choose|i: int| 0 <= i < old_texts.len() && old_texts[i] == t;
                if i < at {
                    assert(new[i] == t);
                } else {
                    assert(new[i + 1] == t);
                }
            }
            assert(new[at as int] == it);
        }
    }
}

/// The texts of `list` in ascending order, each of them once.
pub fn sorted_unique(list: &[String]) -> (r: Vec<String>)
    ensures
        ascending(texts(r@)),
        forall|t: Seq<char>| #[trigger] texts(r@).contains(t) <==> texts(list@).contains(t),
{
    let mut r: Vec<String> = Vec::new();
    let mut i: usize = 0;
    assert(list@.take(0) == Seq::<String>::empty());
    while i < list.len()
        invariant
            i <= list@.len(),
            ascending(texts(r@)),
            forall|t: Seq<char>| #[trigger] texts(r@).contains(t) <==> texts(
                list@.take(i as int),
            ).contains(t),
        decreases list@.len() - i,
    {
        let ghost before = texts(list@.take(i as int));
        insert_text(&mut r, list[i].clone());
        i += 1;
        proof {
            let now = texts(list@.take(i as int));
            assert(now == before.push(list@[i - 1]@));
            assert forall|t: Seq<char>| #[trigger] texts(r@).contains(t) <==> now.contains(t) by {
                if before.contains(t) {
                    let k = choose|k: int| 0 <= k < before.len() && before[k] == t;
                    assert(now[k] == t);
                }
                if now.contains(t) {
                    let k = choose|k: int| 0 <= k < now.len() && now[k] == t;
                    if k < before.len() {
                        assert(before[k] == t);
                    }
                }
                assert(now[i - 1] == list@[i - 1]@);
            }
        }
    }
    assert(list@.take(i as int) == list@);
    r
}

/// An ascending list is determined by the texts in it.
pub proof fn law_ascending_lists_are_unique(a: Seq<Seq<char>>, b: Seq<Seq<char>>)
    requires
        ascending(a),
        ascending(b),
        forall|t: Seq<char>| a.contains(t) <==> b.contains(t),
    ensures
        a == b,
    decreases a.len(),
{
    if a.len() == 0 {
        if b.len() > 0 {
            assert(b.contains(b[0]));
        }
        assert(a == b);
    } else if b.len() == 0 {
        assert(a.contains(a[0]));
    } else {
        let x = a.last();
        let y = b.last();
        assert(a.contains(x) && b.contains(y));
        let i = choose|i: int| 0 <= i < b.len() && b[i] == x;
        let j = choose|j: int| 0 <= j < a.len() && a[j] == y;
        if x != y {
            assert(text_less(x, y));
            assert(text_less(y, x));
            lemma_text_less_transitive(x, y, x);
            lemma_text_less_irreflexive(x);
        }
        let c = a.drop_last();
        let d = b.drop_last();
        assert forall|t: Seq<char>| c.contains(t) implies d.contains(t) by {
            lemma_member_of_init(a, b, t);
        }
        assert forall|t: Seq<char>| d.contains(t) implies c.contains(t) by {
            lemma_member_of_init(b, a, t);
        }
        law_ascending_lists_are_unique(c, d);
        assert(a == c.push(x));
        assert(b == d.push(y));
    }
}

proof fn lemma_member_of_init(a: Seq<Seq<char>>, b: Seq<Seq<char>>, t: Seq<char>)
    requires
        a.len() > 0,
        b.len() > 0,
        ascending(a),
        a.last() == b.last(),
        forall|t: Seq<char>| a.contains(t) <==> b.contains(t),
        a.drop_last().contains(t),
    ensures
        b.drop_last().contains(t),
{
    let k = choose|k: int| 0 <= k < a.drop_last().len() && a.drop_last()[k] == t;
    assert(a[k] == t);
    assert(a.contains(t));
    assert(text_less(a[k], a[a.len() - 1]));
    lemma_text_less_irreflexive(t);
    let m = choose|m: int| 0 <= m < b.len() && b[m] == t;
    assert(m != b.len() - 1);
    assert(b.drop_last()[m] == t);
}

} // verus!
