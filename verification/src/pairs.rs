//! Key/value byte-string pairs, as produced by query-string and body
//! parsing. Entries are kept in insertion order; read as a mapping, the
//! latest entry for a key wins, which documents the duplicate-key policy.
use vstd::prelude::*;

verus! {

/// The mapping held by a list of entries: each pair inserted in order, so a
/// later entry for the same key overrides an earlier one.
pub open spec fn map_of(entries: Seq<(Vec<u8>, Vec<u8>)>) -> Map<Seq<u8>, Seq<u8>>
    decreases entries.len(),
{
    if entries.len() == 0 {
        Map::empty()
    } else {
        map_of(entries.drop_last()).insert(entries.last().0@, entries.last().1@)
    }
}

/// A key is in the mapping exactly when some entry holds it.
pub proof fn lemma_map_of_keys(entries: Seq<(Vec<u8>, Vec<u8>)>, k: Seq<u8>)
    ensures
        map_of(entries).contains_key(k) <==> exists|i: int|
            0 <= i < entries.len() && entries[i].0@ == k,
    decreases entries.len(),
{
    if entries.len() == 0 {
    } else {
        let prefix = entries.drop_last();
        lemma_map_of_keys(prefix, k);
        if entries.last().0@ == k {
            assert(entries[entries.len() - 1].0@ == k);
        } else if map_of(entries).contains_key(k) {
            let i = choose|i: int| 0 <= i < prefix.len() && prefix[i].0@ == k;
            assert(entries[i].0@ == k);
        } else {
            assert(forall|i: int|
                0 <= i < prefix.len() ==> prefix[i] == entries[i]);
        }
    }
}

/// The mapping returns the value of the latest entry for a key.
pub proof fn lemma_map_of_latest(entries: Seq<(Vec<u8>, Vec<u8>)>, i: int)
    requires
        0 <= i < entries.len(),
        forall|j: int| i < j < entries.len() ==> entries[j].0@ != entries[i].0@,
    ensures
        map_of(entries).contains_key(entries[i].0@),
        map_of(entries)[entries[i].0@] == entries[i].1@,
    decreases entries.len(),
{
    if i == entries.len() - 1 {
    } else {
        let prefix = entries.drop_last();
        lemma_map_of_latest(prefix, i);
    }
}

/// An ordered list of key/value byte-string pairs, read as a mapping in
/// which the latest entry for a key wins.
pub struct PairMap {
    entries: Vec<(Vec<u8>, Vec<u8>)>,
}

impl View for PairMap {
    type V = Map<Seq<u8>, Seq<u8>>;

    closed spec fn view(&self) -> Map<Seq<u8>, Seq<u8>> {
        map_of(self.entries@)
    }
}

impl PairMap {
    pub fn new() -> (r: PairMap)
        ensures
            r@ == Map::<Seq<u8>, Seq<u8>>::empty(),
    {
        PairMap { entries: Vec::new() }
    }

    pub fn insert(&mut self, key: Vec<u8>, value: Vec<u8>)
        ensures
            final(self)@ == old(self)@.insert(key@, value@),
    {
        let ghost old_entries = self.entries@;
        let ghost k = key@;
        let ghost v = value@;
        self.entries.push((key, value));
        proof {
            assert(self.entries@.drop_last() =~= old_entries);
            assert(self.entries@.last().0@ == k);
            assert(self.entries@.last().1@ == v);
        }
    }

    pub fn get(&self, key: &[u8]) -> (r: Option<&Vec<u8>>)
        ensures
            (match r {
                Some(v) => self@.contains_key(key@) && v@ == self@[key@],
                None => !self@.contains_key(key@),
            }),
    {
        let mut j: usize = self.entries.len();
        while j > 0
            invariant
                0 <= j <= self.entries@.len(),
                forall|jj: int|
                    j <= jj < self.entries@.len() ==> self.entries@[jj].0@ != key@,
            decreases j,
        {
            j = j - 1;
            if crate::text::bytes_eq(self.entries[j].0.as_slice(), key) {
                proof {
                    lemma_map_of_latest(self.entries@, j as int);
                }
                return Some(&self.entries[j].1);
            }
        }
        proof {
            lemma_map_of_keys(self.entries@, key@);
        }
        None
    }

    pub fn is_empty(&self) -> (r: bool)
        ensures
            r == (self@ == Map::<Seq<u8>, Seq<u8>>::empty()),
    {
        if self.entries.len() == 0 {
            true
        } else {
            proof {
                let last = self.entries@.len() - 1;
                lemma_map_of_latest(self.entries@, last);
                assert(self@.contains_key(self.entries@[last].0@));
                assert(!Map::<Seq<u8>, Seq<u8>>::empty().contains_key(
                    self.entries@[last].0@,
                ));
            }
            false
        }
    }
}

} // verus!
