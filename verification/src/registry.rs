//! The whitelist of commands that the daemon exposes.

use crate::config::CommandEntry;
use crate::ordered::{ascending, place_of};
use crate::text::{
    copy_texts, lemma_text_less_irreflexive, lemma_text_less_total, same_text, text_less, texts,
};
use vstd::prelude::*;

verus! {

/// The commands that a list of entries registers: of two entries for one command the later
/// one counts.
pub open spec fn registered(entries: Seq<CommandEntry>) -> Map<Seq<char>, Seq<char>>
    decreases entries.len(),
{
    if entries.len() == 0 {
        Map::empty()
    } else {
        registered(entries.drop_last()).insert(entries.last().id@, entries.last().path@)
    }
}

/// The registered commands, each with the path of its binary.
#[derive(Debug)]
pub struct CommandRegistry {
    ids: Vec<String>,
    paths: Vec<String>,
}

spec fn map_of(ids: Seq<Seq<char>>, paths: Seq<Seq<char>>) -> Map<Seq<char>, Seq<char>> {
    Map::new(|id: Seq<char>| ids.contains(id), |id: Seq<char>| paths[ids.index_of(id)])
}

impl View for CommandRegistry {
    type V = Map<Seq<char>, Seq<char>>;

    closed spec fn view(&self) -> Map<Seq<char>, Seq<char>> {
        map_of(texts(self.ids@), texts(self.paths@))
    }
}

proof fn lemma_index_of(ids: Seq<Seq<char>>, i: int)
    requires
        ascending(ids),
        0 <= i < ids.len(),
    ensures
        ids.contains(ids[i]),
        ids.index_of(ids[i]) == i,
{
    let j = ids.index_of(ids[i]);
    assert(ids.contains(ids[i]));
    assert(0 <= j < ids.len() && ids[j] == ids[i]);
    lemma_text_less_irreflexive(ids[i]);
    if j < i {
        assert(text_less(ids[j], ids[i]));
    } else if i < j {
        assert(text_less(ids[i], ids[j]));
    }
}

/// Where an ascending list takes a new item, the items before it keep their places and those
/// behind it move up by one.
proof fn lemma_insert(
    ids: Seq<Seq<char>>,
    paths: Seq<Seq<char>>,
    at: int,
    id: Seq<char>,
    path: Seq<char>,
)
    requires
        ascending(ids),
        ids.len() == paths.len(),
        0 <= at <= ids.len(),
        !ids.contains(id),
        forall|i: int| 0 <= i < at ==> text_less(#[trigger] ids[i], id),
        forall|i: int| at <= i < ids.len() ==> !text_less(#[trigger] ids[i], id),
    ensures
        ascending(ids.insert(at, id)),
        map_of(ids.insert(at, id), paths.insert(at, path)) == map_of(ids, paths).insert(id, path),
{
    let new_ids = ids.insert(at, id);
    let new_paths = paths.insert(at, path);
    assert forall|i: int, j: int| 0 <= i < j < new_ids.len() implies text_less(
        #[trigger] new_ids[i],
        #[trigger] new_ids[j],
    ) by {
        let oi = if i < at { i } else { i - 1 };
        let oj = if j < at { j } else { j - 1 };
        if i == at {
            assert(new_ids[j] == ids[oj]);
            lemma_text_less_total(id, ids[oj]);
            assert(ids.contains(ids[oj]));
        } else if j == at {
            assert(new_ids[i] == ids[oi]);
        } else {
            assert(new_ids[i] == ids[oi] && new_ids[j] == ids[oj]);
        }
    }
    let a = map_of(new_ids, new_paths);
    let b = map_of(ids, paths).insert(id, path);
    assert forall|k: Seq<char>| #[trigger] a.dom().contains(k) <==> b.dom().contains(k) by {
        if new_ids.contains(k) {
            let i = choose|i: int| 0 <= i < new_ids.len() && new_ids[i] == k;
            if i < at {
                assert(ids[i] == k);
            } else if i > at {
                assert(ids[i - 1] == k);
            }
        }
        if ids.contains(k) {
            let i = choose|i: int| 0 <= i < ids.len() && ids[i] == k;
            if i < at {
                assert(new_ids[i] == k);
            } else {
                assert(new_ids[i + 1] == k);
            }
        }
        assert(new_ids[at] == id);
    }
    assert forall|k: Seq<char>| #[trigger] a.dom().contains(k) implies a[k] == b[k] by {
        let i = choose|i: int| 0 <= i < new_ids.len() && new_ids[i] == k;
        lemma_index_of(new_ids, i);
        if i < at {
            lemma_index_of(ids, i);
        } else if i > at {
            lemma_index_of(ids, i - 1);
            assert(ids[i - 1] == k);
        }
    }
    assert(a =~= b);
}

proof fn lemma_update(ids: Seq<Seq<char>>, paths: Seq<Seq<char>>, at: int, path: Seq<char>)
    requires
        ascending(ids),
        ids.len() == paths.len(),
        0 <= at < ids.len(),
    ensures
        map_of(ids, paths.update(at, path)) == map_of(ids, paths).insert(ids[at], path),
{
    let a = map_of(ids, paths.update(at, path));
    let b = map_of(ids, paths).insert(ids[at], path);
    lemma_index_of(ids, at);
    assert forall|k: Seq<char>| #[trigger] a.dom().contains(k) implies a[k] == b[k] by {
        let i = choose|i: int| 0 <= i < ids.len() && ids[i] == k;
        lemma_index_of(ids, i);
    }
    assert(a =~= b);
}

impl CommandRegistry {
    #[verifier::type_invariant]
    spec fn wf(self) -> bool {
        &&& self.ids@.len() == self.paths@.len()
        &&& ascending(texts(self.ids@))
    }

    /// The registry of the given entries.
    pub fn from_entries(entries: &[CommandEntry]) -> (r: CommandRegistry)
        ensures
            r@ == registered(entries@),
    {
        let mut ids: Vec<String> = Vec::new();
        let mut paths: Vec<String> = Vec::new();
        let mut n: usize = 0;
        assert(map_of(texts(ids@), texts(paths@)) =~= Map::empty());
        assert(entries@.take(0) == Seq::<CommandEntry>::empty());
        while n < entries.len()
            invariant
                n <= entries@.len(),
                ids@.len() == paths@.len(),
                ascending(texts(ids@)),
                map_of(texts(ids@), texts(paths@)) == registered(entries@.take(n as int)),
            decreases entries@.len() - n,
        {
            let id = entries[n].id.clone();
            let path = entries[n].path.clone();
            let at: usize = place_of(&ids, id.as_str());
            let ghost before_ids = texts(ids@);
            let ghost before_paths = texts(paths@);
            if at < ids.len() && same_text(ids[at].as_str(), id.as_str()) {
                proof {
                    lemma_update(before_ids, before_paths, at as int, path@);
                }
                paths.set(at, path);
                assert(texts(paths@) =~= before_paths.update(at as int, path@));
            } else {
                proof {
                    assert forall|i: int| 0 <= i < at implies text_less(
                        #[trigger] before_ids[i],
                        id@,
                    ) by {
                        assert(text_less(ids@[i]@, id@));
                    }
                    assert forall|i: int| at <= i < before_ids.len() implies !text_less(
                        #[trigger] before_ids[i],
                        id@,
                    ) by {
                        assert(!text_less(ids@[i]@, id@));
                    }
                    lemma_insert(before_ids, before_paths, at as int, id@, path@);
                }
                ids.insert(at, id);
                paths.insert(at, path);
                assert(texts(ids@) =~= before_ids.insert(at as int, id@));
                assert(texts(paths@) =~= before_paths.insert(at as int, path@));
            }
            n += 1;
            proof {
                let now = entries@.take(n as int);
                assert(now.drop_last() == entries@.take(n - 1));
                assert(now.last() == entries@[n - 1]);
            }
        }
        assert(entries@.take(n as int) == entries@);
        CommandRegistry { ids, paths }
    }

    /// The path of the binary of a command, where the command is registered.
    pub fn get(&self, id: &str) -> (path: Option<String>)
        ensures
            path is Some <==> self@.dom().contains(id@),
            path matches Some(p) ==> p@ == self@[id@],
    {
        proof {
            use_type_invariant(self);
        }
        let at: usize = place_of(&self.ids, id);
        if at < self.ids.len() && same_text(self.ids[at].as_str(), id) {
            proof {
                lemma_index_of(texts(self.ids@), at as int);
            }
            Some(self.paths[at].clone())
        } else {
            None
        }
    }

    /// The registered commands in ascending order.
    pub fn ids(&self) -> (list: Vec<String>)
        ensures
            ascending(texts(list@)),
            forall|id: Seq<char>| #[trigger] texts(list@).contains(id) <==> self@.dom().contains(id),
    {
        proof {
            use_type_invariant(self);
        }
        copy_texts(self.ids.as_slice())
    }
}

} // verus!
