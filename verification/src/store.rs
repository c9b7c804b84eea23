//! An in-memory column-family key-value store: the collaborator that the sync
//! metadata accessors read from and write to. Each key maps to at most one
//! byte string at a time, and every put is a full overwrite.

use vstd::prelude::*;

verus! {

/// The columns of the column-family store that this crate touches. The sync
/// metadata lives entirely in the meta column.
#[derive(Clone, Copy, PartialEq, Eq, Structural, Debug)]
pub enum Column {
    Meta,
}

/// The fixed keys of the meta column.
#[derive(Clone, Copy, PartialEq, Eq, Structural, Debug)]
pub enum MetaKey {
    CurrentSyncingTips,
    CurrentSyncBlock,
    LatestBlockHashAndNumber,
}

/// The meta column's abstract content: a partial map from key to the raw
/// bytes stored under it, built from the entry list with later entries
/// winning (entries are kept unique, so the order never matters).
pub(crate) open spec fn entries_view(s: Seq<(MetaKey, Vec<u8>)>) -> Map<MetaKey, Seq<u8>>
    decreases s.len(),
{
    if s.len() == 0 {
        Map::empty()
    } else {
        entries_view(s.drop_last()).insert(s.last().0, s.last().1@)
    }
}

/// No two entries share a key.
pub(crate) open spec fn entries_unique(s: Seq<(MetaKey, Vec<u8>)>) -> bool {
    forall|i: int, j: int| 0 <= i < j < s.len() ==> s[i].0 != s[j].0
}

/// A key is in the view exactly when some entry holds it.
pub(crate) proof fn lemma_entries_view_contains(s: Seq<(MetaKey, Vec<u8>)>, k: MetaKey)
    ensures
        entries_view(s).contains_key(k) <==> exists|i: int| 0 <= i < s.len() && s[i].0 == k,
    decreases s.len(),
{
    if s.len() > 0 {
        lemma_entries_view_contains(s.drop_last(), k);
        if s.last().0 == k {
            assert(s[s.len() - 1].0 == k);
        } else if entries_view(s).contains_key(k) {
            let i = choose|i: int| 0 <= i < s.drop_last().len() && s.drop_last()[i].0 == k;
            assert(s[i].0 == k);
        } else if exists|i: int| 0 <= i < s.len() && s[i].0 == k {
            let i = choose|i: int| 0 <= i < s.len() && s[i].0 == k;
            assert(s.drop_last()[i].0 == k);
        }
    }
}

/// Under uniqueness, the view maps a key to the bytes of its one entry.
pub(crate) proof fn lemma_entries_view_get(s: Seq<(MetaKey, Vec<u8>)>, k: MetaKey, i: int)
    requires
        entries_unique(s),
        0 <= i < s.len(),
        s[i].0 == k,
    ensures
        entries_view(s).contains_key(k),
        entries_view(s)[k] == s[i].1@,
    decreases s.len(),
{
    lemma_entries_view_contains(s, k);
    if i == s.len() - 1 {
    } else {
        assert(s.last().0 != k);
        assert(s.drop_last()[i].0 == k);
        lemma_entries_view_get(s.drop_last(), k, i);
    }
}

/// Removing the one entry that holds a key removes the key from the view.
pub(crate) proof fn lemma_entries_view_remove(s: Seq<(MetaKey, Vec<u8>)>, k: MetaKey, i: int)
    requires
        entries_unique(s),
        0 <= i < s.len(),
        s[i].0 == k,
    ensures
        entries_view(s.remove(i)) =~= entries_view(s).remove(k),
    decreases s.len(),
{
    lemma_entries_view_contains(s, k);
    if i == s.len() - 1 {
        assert(s.remove(i) =~= s.drop_last());
        lemma_entries_view_contains(s.drop_last(), k);
        assert(forall|j: int|
            0 <= j < s.drop_last().len() ==> #[trigger] s.drop_last()[j].0 != k);
        assert(entries_view(s.drop_last()) =~= entries_view(s).remove(k));
    } else {
        assert(s.remove(i).drop_last() =~= s.drop_last().remove(i));
        assert(s.remove(i).last() == s.last());
        assert(entries_unique(s.drop_last()));
        lemma_entries_view_remove(s.drop_last(), k, i);
        assert(s.last().0 != k);
        assert(entries_view(s.remove(i)) =~= entries_view(s).remove(k));
    }
}

/// An in-memory column-family store, keyed by the fixed meta keys. Writes
/// overwrite whatever the key held before; keys are never deleted.
pub struct Db {
    meta: Vec<(MetaKey, Vec<u8>)>,
}

impl View for Db {
    type V = Map<MetaKey, Seq<u8>>;

    /// The content of the meta column.
    closed spec fn view(&self) -> Map<MetaKey, Seq<u8>> {
        entries_view(self.meta@)
    }
}

impl Db {
    /// The store keeps at most one entry per key.
    pub closed spec fn wf(&self) -> bool {
        entries_unique(self.meta@)
    }

    /// A fresh store with nothing written yet.
    pub fn new() -> (db: Db)
        ensures
            db.wf(),
            db@ == Map::<MetaKey, Seq<u8>>::empty(),
    {
        Db { meta: Vec::new() }
    }

    /// Read the bytes stored under a key of a column, if any were ever put.
    pub fn get_cf(&self, column: Column, key: MetaKey) -> (r: Option<&Vec<u8>>)
        requires
            self.wf(),
        ensures
            match r {
                Some(v) => self@.contains_key(key) && self@[key] == v@,
                None => !self@.contains_key(key),
            },
    {
        let ghost s = self.meta@;
        let mut i: usize = 0;
        while i < self.meta.len()
            invariant
                self.wf(),
                s == self.meta@,
                0 <= i <= s.len(),
                forall|j: int| 0 <= j < i ==> s[j].0 != key,
            decreases s.len() - i,
        {
            if self.meta[i].0 == key {
                proof {
                    lemma_entries_view_get(s, key, i as int);
                }
                return Some(&self.meta[i].1);
            }
            i += 1;
        }
        proof {
            lemma_entries_view_contains(s, key);
        }
        None
    }

    /// Overwrite the bytes stored under a key of a column.
    pub fn put_cf(&mut self, column: Column, key: MetaKey, value: Vec<u8>)
        requires
            old(self).wf(),
        ensures
            final(self).wf(),
            final(self)@ == old(self)@.insert(key, value@),
    {
        let ghost s = self.meta@;
        let mut i: usize = 0;
        while i < self.meta.len()
            invariant
                self.wf(),
                s == self.meta@,
                s == old(self).meta@,
                0 <= i <= s.len(),
                forall|j: int| 0 <= j < i ==> s[j].0 != key,
            decreases s.len() - i,
        {
            if self.meta[i].0 == key {
                self.meta.remove(i);
                proof {
                    lemma_entries_view_remove(s, key, i as int);
                    assert(entries_unique(self.meta@)) by {
                        assert(forall|a: int, b: int|
                            0 <= a < b < s.remove(i as int).len() ==> #[trigger] s.remove(
                                i as int,
                            )[a].0 != #[trigger] s.remove(i as int)[b].0);
                    }
                }
                self.meta.push((key, value));
                proof {
                    assert(self.meta@.drop_last() =~= s.remove(i as int));
                    lemma_entries_view_contains(s.remove(i as int), key);
                    assert(entries_unique(self.meta@));
                    assert(entries_view(self.meta@) =~= entries_view(s).insert(key, value@));
                }
                return ;
            }
            i += 1;
        }
        self.meta.push((key, value));
        proof {
            assert(self.meta@.drop_last() =~= s);
            assert(entries_unique(self.meta@));
            assert(entries_view(self.meta@) =~= entries_view(s).insert(key, value@));
        }
    }
}

} // verus!
