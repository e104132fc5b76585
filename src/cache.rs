//! A memo table from text keys to encoded sequences. Entries are added on a
//! miss and never changed afterwards; the table is only ever emptied whole.
use vstd::prelude::*;
use vstd::string::*;
use crate::text::same_text;

verus! {

/// The value stored under `key`, searching from the newest entry.
pub open spec fn find(entries: Seq<(Seq<char>, Seq<char>)>, key: Seq<char>) -> Option<Seq<char>>
    decreases entries.len(),
{
    if entries.len() == 0 {
        None
    } else if entries.last().0 == key {
        Some(entries.last().1)
    } else {
        find(entries.drop_last(), key)
    }
}

/// Key/value pairs in the order they were stored.
pub struct SequenceCache {
    entries: Vec<(String, String)>,
}

impl View for SequenceCache {
    type V = Seq<(Seq<char>, Seq<char>)>;

    closed spec fn view(&self) -> Seq<(Seq<char>, Seq<char>)> {
        self.entries@.map_values(|p: (String, String)| (p.0@, p.1@))
    }
}

impl SequenceCache {
    /// An empty table.
    pub fn new() -> (r: Self)
        ensures
            r@ == Seq::<(Seq<char>, Seq<char>)>::empty(),
    {
        SequenceCache { entries: Vec::new() }
    }

    /// The stored value for `key`, if any.
    pub fn get(&self, key: &str) -> (r: Option<String>)
        ensures
            match r {
                Some(v) => find(self@, key@) == Some(v@),
                None => find(self@, key@) is None,
            },
    {
        let mut i = self.entries.len();
        assert(self@.take(i as int) =~= self@);
        while i > 0
            invariant
                i <= self.entries@.len(),
                find(self@, key@) == find(self@.take(i as int), key@),
            decreases i,
        {
            i = i - 1;
            let ghost prefix = self@.take(i + 1);
            assert(prefix.drop_last() =~= self@.take(i as int));
            assert(prefix.last() == self@[i as int]);
            if same_text(self.entries[i].0.as_str(), key) {
                return Some(self.entries[i].1.clone());
            }
        }
        assert(self@.take(0) =~= Seq::<(Seq<char>, Seq<char>)>::empty());
        None
    }

    /// Stores `value` under `key`, which must not be present.
    pub fn insert(&mut self, key: String, value: String)
        requires
            find(old(self)@, key@) is None,
        ensures
            final(self)@ == old(self)@.push((key@, value@)),
    {
        self.entries.push((key, value));
        assert(self@ =~= old(self)@.push((key@, value@)));
    }

    /// Removes every entry.
    pub fn clear(&mut self)
        ensures
            final(self)@ == Seq::<(Seq<char>, Seq<char>)>::empty(),
    {
        self.entries.clear();
        assert(self@ =~= Seq::<(Seq<char>, Seq<char>)>::empty());
    }
}

/// Once a value is stored under a key, looking the key up gives that value.
pub proof fn lemma_find_stored(entries: Seq<(Seq<char>, Seq<char>)>, key: Seq<char>, value: Seq<char>)
    ensures
        find(entries.push((key, value)), key) == Some(value),
{
    assert(entries.push((key, value)).last() == (key, value));
}

/// A value found under a key is stored in some entry with that key.
pub proof fn lemma_find_entry(entries: Seq<(Seq<char>, Seq<char>)>, key: Seq<char>)
    ensures
        find(entries, key) matches Some(v) ==> exists|i: int| 0 <= i < entries.len() && #[trigger] entries[i] == (key, v),
    decreases entries.len(),
{
    if entries.len() > 0 && entries.last().0 != key {
        lemma_find_entry(entries.drop_last(), key);
        if let Some(v) = find(entries, key) {
            let i = choose|i: int| 0 <= i < entries.drop_last().len() && #[trigger] entries.drop_last()[i] == (key, v);
            assert(entries[i] == (key, v));
        }
    } else if entries.len() > 0 {
        assert(entries[entries.len() - 1] == (key, entries.last().1));
    }
}

/// A fetch that produced `value` for `key` (a hit, which leaves the entries as
/// they were, or a miss, which stores it) leaves the table holding `value` under
/// `key`: the next fetch of the key is a hit that returns the same value and
/// builds nothing.
pub proof fn lemma_fetch_then_hit(
    before: Seq<(Seq<char>, Seq<char>)>,
    after: Seq<(Seq<char>, Seq<char>)>,
    key: Seq<char>,
    value: Seq<char>,
)
    requires
        (find(before, key) == Some(value) && after == before)
            || (find(before, key) is None && after == before.push((key, value))),
    ensures
        find(after, key) == Some(value),
{
    if find(before, key) is None {
        lemma_find_stored(before, key, value);
    }
}

} // verus!
