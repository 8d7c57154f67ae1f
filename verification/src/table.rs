//! A table from texts to values.
use vstd::prelude::*;

use crate::text::text_eq;

verus! {

/// A table from texts to values. A text has at most one value.
#[derive(Debug)]
pub struct Table<V: Copy> {
    entries: Vec<(String, V)>,
}

spec fn found<V>(entries: Seq<(String, V)>, key: Seq<char>) -> Option<V>
    decreases entries.len(),
{
    if entries.len() == 0 {
        None
    } else if entries.last().0@ == key {
        Some(entries.last().1)
    } else {
        found(entries.drop_last(), key)
    }
}

impl<V: Copy> View for Table<V> {
    type V = Map<Seq<char>, V>;

    closed spec fn view(&self) -> Map<Seq<char>, V> {
        Map::new(
            |key: Seq<char>| found(self.entries@, key) is Some,
            |key: Seq<char>| found(self.entries@, key)->Some_0,
        )
    }
}

/// What a table gives for a text.
pub open spec fn value_at<V>(table: Map<Seq<char>, V>, key: Seq<char>) -> Option<V> {
    if table.dom().contains(key) {
        Some(table[key])
    } else {
        None
    }
}

impl<V: Copy> Table<V> {
    /// An empty table.
    pub fn new() -> (r: Table<V>)
        ensures
            r@ == Map::<Seq<char>, V>::empty(),
    {
        let r = Table { entries: Vec::new() };
        proof {
            assert(r@ =~= Map::<Seq<char>, V>::empty());
        }
        r
    }

    /// The value of `key`.
    pub fn get(&self, key: &str) -> (r: Option<V>)
        ensures
            r == value_at(self@, key@),
    {
        let mut i: usize = self.entries.len();
        proof {
            assert(self.entries@.take(i as int) =~= self.entries@);
        }
        while i > 0
            invariant
                i <= self.entries.len(),
                found(self.entries@, key@) == found(self.entries@.take(i as int), key@),
            decreases i,
        {
            proof {
                assert(self.entries@.take(i as int).drop_last() =~= self.entries@.take(i - 1));
            }
            i = i - 1;
            if text_eq(self.entries[i].0.as_str(), key) {
                return Some(self.entries[i].1);
            }
        }
        None
    }

    /// Takes `key` out of the table.
    pub fn remove(&mut self, key: &str)
        ensures
            final(self)@ == old(self)@.remove(key@),
    {
        let mut kept: Vec<(String, V)> = Vec::new();
        let mut i: usize = 0;
        while i < self.entries.len()
            invariant
                i <= self.entries.len(),
                *self == *old(self),
                found(kept@, key@) is None,
                forall|k: Seq<char>|
                    k != key@ ==> #[trigger] found(kept@, k) == found(
                        self.entries@.take(i as int),
                        k,
                    ),
            decreases self.entries.len() - i,
        {
            proof {
                assert(self.entries@.take(i + 1).drop_last() =~= self.entries@.take(i as int));
            }
            let ghost before = kept@;
            if !text_eq(self.entries[i].0.as_str(), key) {
                let name = self.entries[i].0.clone();
                kept.push((name, self.entries[i].1));
                proof {
                    assert(kept@.drop_last() =~= before);
                }
            }
            i = i + 1;
            proof {
                assert forall|k: Seq<char>| k != key@ implies #[trigger] found(kept@, k) == found(
                    self.entries@.take(i as int),
                    k,
                ) by {
                    assert(found(before, k) == found(self.entries@.take(i - 1), k));
                }
            }
        }
        proof {
            assert(self.entries@.take(i as int) =~= self.entries@);
        }
        self.entries = kept;
        proof {
            assert(self@ =~= old(self)@.remove(key@));
        }
    }

    /// Gives `key` the value `value`.
    pub fn insert(&mut self, key: &str, value: V)
        ensures
            final(self)@ == old(self)@.insert(key@, value),
    {
        self.remove(key);
        let ghost before = self.entries@;
        self.entries.push((key.to_owned(), value));
        proof {
            assert(self.entries@.drop_last() =~= before);
            assert(self@ =~= old(self)@.insert(key@, value)) by {
                assert forall|k: Seq<char>| #[trigger] found(self.entries@, k) == (if k == key@ {
                    Some(value)
                } else {
                    found(before, k)
                }) by {}
                let removed = old(self)@.remove(key@);
                assert forall|k: Seq<char>| k != key@ implies #[trigger] found(before, k)
                    == value_at(old(self)@, k) by {
                    assert(value_at(removed, k) == found(before, k));
                }
            }
        }
    }
}

} // verus!
