//! Board flow: a free-form text key/value map.
//!
//! `set` inserts or overwrites a key, last write wins; there is no delete
//! in this surface, so a key stays until overwritten or the flow is
//! dropped.  Insertion order carries no meaning; the state keeps each key
//! at most once.

use crate::assoc::{
    a_has, a_lookup, a_set, a_unique, lemma_lookup_at, lemma_lookup_none_iff, lemma_set_absent,
    lemma_set_at, lemma_set_unique,
};
use vstd::prelude::*;

verus! {

/// The spec image of the board's pair vector.
pub open spec fn board_view(s: Seq<(String, String)>) -> Seq<(Seq<char>, Seq<char>)> {
    s.map_values(|p: (String, String)| (p.0@, p.1@))
}

/// State of a board flow; starts empty.
pub struct BoardState {
    pub entries: Vec<(String, String)>,
}

impl BoardState {
    /// Each key is bound at most once.
    pub open spec fn wf(self) -> bool {
        a_unique(board_view(self.entries@))
    }

    /// A fresh board binds nothing.
    pub fn new() -> (r: BoardState)
        ensures
            r.wf(),
            board_view(r.entries@) == Seq::<(Seq<char>, Seq<char>)>::empty(),
    {
        let r = BoardState { entries: Vec::new() };
        proof {
            assert(board_view(r.entries@) =~= Seq::<(Seq<char>, Seq<char>)>::empty());
        }
        r
    }

    /// Bind `key` to `value`, overwriting any prior binding of `key` and
    /// leaving every other key untouched.
    #[verifier::loop_isolation(false)]
    pub fn set(self, key: String, value: String) -> (r: BoardState)
        requires
            self.wf(),
        ensures
            r.wf(),
            board_view(r.entries@) == a_set(board_view(self.entries@), key@, value@),
    {
        let ghost v0 = board_view(self.entries@);
        let mut entries = self.entries;
        let n = entries.len();
        let mut i: usize = 0;
        while i < n
            invariant
                i <= n,
                n == entries@.len(),
                v0 == board_view(entries@),
                forall|j: int| 0 <= j < i ==> v0[j].0 != key@,
            decreases n - i,
        {
            if entries[i].0 == key {
                proof {
                    assert(v0[i as int].0 == key@);
                    lemma_set_at(v0, i as int, value@);
                    lemma_set_unique(v0, key@, value@);
                }
                entries[i] = (key, value);
                let r = BoardState { entries };
                proof {
                    assert(board_view(r.entries@) =~= v0.update(i as int, (key@, value@)));
                }
                return r;
            }
            i = i + 1;
        }
        proof {
            lemma_set_absent(v0, key@, value@);
            lemma_set_unique(v0, key@, value@);
        }
        entries.push((key, value));
        let r = BoardState { entries };
        proof {
            assert(board_view(r.entries@) =~= v0.push((key@, value@)));
        }
        r
    }

    /// The value currently bound to `key`, if any.
    #[verifier::loop_isolation(false)]
    pub fn get(&self, key: &String) -> (r: Option<&String>)
        requires
            self.wf(),
        ensures
            match r {
                Some(v) => a_lookup(board_view(self.entries@), key@) == Some(v@),
                None => !a_has(board_view(self.entries@), key@),
            },
    {
        let ghost v0 = board_view(self.entries@);
        let n = self.entries.len();
        let mut i: usize = 0;
        while i < n
            invariant
                i <= n,
                n == self.entries@.len(),
                v0 == board_view(self.entries@),
                forall|j: int| 0 <= j < i ==> v0[j].0 != key@,
            decreases n - i,
        {
            if self.entries[i].0 == *key {
                proof {
                    lemma_lookup_at(v0, i as int);
                }
                return Some(&self.entries[i].1);
            }
            i = i + 1;
        }
        proof {
            lemma_lookup_none_iff(v0, key@);
        }
        None
    }
}

} // verus!
