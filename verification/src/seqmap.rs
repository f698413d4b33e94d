//! A small association map from packet sequences to byte-string values,
//! backed by a vector with unique keys and viewed as a mathematical map.

use vstd::prelude::*;

verus! {

/// The map built from an entry list, later entries shadowing earlier ones;
/// with unique keys the order never matters.
pub open spec fn entries_map(s: Seq<(u64, Vec<u8>)>) -> Map<u64, Seq<u8>>
    decreases s.len(),
{
    if s.len() == 0 {
        Map::empty()
    } else {
        entries_map(s.drop_last()).insert(s.last().0, s.last().1@)
    }
}

/// No key occurs twice in the entry list.
pub open spec fn keys_unique(s: Seq<(u64, Vec<u8>)>) -> bool {
    forall|i: int, j: int| 0 <= i < j < s.len() ==> s[i].0 != s[j].0
}

/// A key is in the map exactly when some entry carries it.
pub proof fn lemma_entries_map_domain(s: Seq<(u64, Vec<u8>)>, k: u64)
    ensures
        entries_map(s).contains_key(k) <==> exists|i: int| 0 <= i < s.len() && s[i].0 == k,
    decreases s.len(),
{
    if s.len() > 0 {
        lemma_entries_map_domain(s.drop_last(), k);
        if s.last().0 == k {
            assert(s[s.len() - 1].0 == k);
        } else if entries_map(s).contains_key(k) {
            let i = choose|i: int| 0 <= i < s.drop_last().len() && s.drop_last()[i].0 == k;
            assert(s[i].0 == k);
        } else {
            assert(forall|i: int| 0 <= i < s.len() - 1 ==> s.drop_last()[i] == s[i]);
        }
    }
}

/// With unique keys, the entry that carries a key gives its mapped value.
pub proof fn lemma_entries_map_value(s: Seq<(u64, Vec<u8>)>, i: int)
    requires
        keys_unique(s),
        0 <= i < s.len(),
    ensures
        entries_map(s).contains_key(s[i].0),
        entries_map(s)[s[i].0] == s[i].1@,
    decreases s.len(),
{
    if i == s.len() - 1 {
    } else {
        assert(s.drop_last()[i] == s[i]);
        lemma_entries_map_value(s.drop_last(), i);
    }
}

/// With unique keys, removing the entry of a key removes exactly that key
/// from the map.
pub proof fn lemma_entries_map_remove(s: Seq<(u64, Vec<u8>)>, i: int)
    requires
        keys_unique(s),
        0 <= i < s.len(),
    ensures
        entries_map(s.remove(i)) =~= entries_map(s).remove(s[i].0),
    decreases s.len(),
{
    let k = s[i].0;
    if i == s.len() - 1 {
        assert(s.remove(i) =~= s.drop_last());
        lemma_entries_map_domain(s.drop_last(), k);
        assert(forall|j: int| 0 <= j < s.len() - 1 ==> s.drop_last()[j] == s[j]);
        assert(!entries_map(s.drop_last()).contains_key(k));
        assert(entries_map(s.drop_last()) =~= entries_map(s.drop_last()).insert(
            k,
            s.last().1@,
        ).remove(k));
    } else {
        assert(s.remove(i).drop_last() =~= s.drop_last().remove(i));
        assert(s.remove(i).last() == s.last());
        assert(forall|j: int| 0 <= j < s.len() - 1 ==> s.drop_last()[j] == s[j]);
        lemma_entries_map_remove(s.drop_last(), i);
        assert(entries_map(s.remove(i)) == entries_map(s.drop_last().remove(i)).insert(
            s.last().0,
            s.last().1@,
        ));
        assert(k != s.last().0);
        assert(entries_map(s.drop_last()).remove(k).insert(s.last().0, s.last().1@)
            =~= entries_map(s.drop_last()).insert(s.last().0, s.last().1@).remove(k));
    }
}

/// Uniqueness of keys survives removing an entry.
pub proof fn lemma_keys_unique_remove(s: Seq<(u64, Vec<u8>)>, i: int)
    requires
        keys_unique(s),
        0 <= i < s.len(),
    ensures
        keys_unique(s.remove(i)),
{
    assert forall|a: int, b: int|
        0 <= a < b < s.remove(i).len() implies s.remove(i)[a].0 != s.remove(i)[b].0 by {
        assert(s.remove(i)[a] == (if a < i {
            s[a]
        } else {
            s[a + 1]
        }));
        assert(s.remove(i)[b] == (if b < i {
            s[b]
        } else {
            s[b + 1]
        }));
    }
}

/// A map from sequence numbers to byte strings.
#[derive(Clone, Debug, PartialEq, Eq)]
pub struct SeqMap {
    pub entries: Vec<(u64, Vec<u8>)>,
}

impl SeqMap {
    /// The mathematical map this value stands for.
    pub open spec fn view(self) -> Map<u64, Seq<u8>> {
        entries_map(self.entries@)
    }

    /// The representation invariant: no key occurs twice.
    pub open spec fn well_formed(self) -> bool {
        keys_unique(self.entries@)
    }

    /// The empty map.
    pub fn new() -> (r: SeqMap)
        ensures
            r.view() =~= Map::<u64, Seq<u8>>::empty(),
            r.well_formed(),
    {
        SeqMap { entries: Vec::new() }
    }

    /// Whether a key is present.
    pub fn contains_key(&self, k: u64) -> (r: bool)
        ensures
            r == self.view().contains_key(k),
    {
        let mut i: usize = 0;
        let n = self.entries.len();
        while i < n
            invariant
                i <= n,
                n == self.entries@.len(),
                forall|j: int| 0 <= j < i ==> self.entries@[j].0 != k,
            decreases n - i,
        {
            if self.entries[i].0 == k {
                proof {
                    lemma_entries_map_domain(self.entries@, k);
                }
                return true;
            }
            i = i + 1;
        }
        proof {
            lemma_entries_map_domain(self.entries@, k);
        }
        false
    }

    /// The value under a key, where one is present.
    pub fn get(&self, k: u64) -> (r: Option<&Vec<u8>>)
        requires
            self.well_formed(),
        ensures
            self.view().contains_key(k) ==> (r matches Some(v) && v@ == self.view()[k]),
            !self.view().contains_key(k) ==> r is None,
    {
        let mut i: usize = 0;
        let n = self.entries.len();
        while i < n
            invariant
                i <= n,
                n == self.entries@.len(),
                self.well_formed(),
                forall|j: int| 0 <= j < i ==> self.entries@[j].0 != k,
            decreases n - i,
        {
            if self.entries[i].0 == k {
                proof {
                    lemma_entries_map_value(self.entries@, i as int);
                }
                return Some(&self.entries[i].1);
            }
            i = i + 1;
        }
        proof {
            lemma_entries_map_domain(self.entries@, k);
        }
        None
    }

    /// Adds a binding for a key not yet present.
    pub fn insert(&mut self, k: u64, v: Vec<u8>)
        requires
            old(self).well_formed(),
            !old(self).view().contains_key(k),
        ensures
            final(self).view() =~= old(self).view().insert(k, v@),
            final(self).well_formed(),
    {
        proof {
            lemma_entries_map_domain(self.entries@, k);
            assert(forall|j: int|
                0 <= j < self.entries@.len() ==> #[trigger] self.entries@[j].0 != k);
        }
        self.entries.push((k, v));
        proof {
            assert(self.entries@.drop_last() =~= old(self).entries@);
        }
    }

    /// Removes the binding of a key, where one is present.
    pub fn remove(&mut self, k: u64)
        requires
            old(self).well_formed(),
            old(self).view().contains_key(k),
        ensures
            final(self).view() =~= old(self).view().remove(k),
            final(self).well_formed(),
    {
        let mut i: usize = 0;
        let n = self.entries.len();
        proof {
            lemma_entries_map_domain(self.entries@, k);
        }
        while i < n
            invariant
                i <= n,
                n == self.entries@.len(),
                self == old(self),
                self.well_formed(),
                forall|j: int| 0 <= j < i ==> self.entries@[j].0 != k,
                exists|j: int| 0 <= j < self.entries@.len() && self.entries@[j].0 == k,
            decreases n - i,
        {
            if self.entries[i].0 == k {
                proof {
                    lemma_entries_map_remove(self.entries@, i as int);
                    lemma_keys_unique_remove(self.entries@, i as int);
                }
                self.entries.remove(i);
                return ;
            }
            i = i + 1;
        }
        proof {
            assert(false);
        }
    }
}

} // verus!
