//! The entries of the current directory and the order they are listed in.
use vstd::prelude::*;
use vstd::string::*;
use vstd::seq_lib::*;

verus! {

broadcast use vstd::seq_lib::group_to_multiset_ensures;

/// Unicode lower case of a text.
pub uninterp spec fn lower_of(s: Seq<char>) -> Seq<char>;

/// Relies on `str::to_lowercase`: the lower-case mapping of each character,
/// which depends on the characters alone.
#[verifier::external_body]
pub(crate) fn lowercase(s: &str) -> (r: String)
    ensures
        r@ == lower_of(s@),
{
    s.to_lowercase()
}

/// A file or directory of the current directory.
pub struct FileEntry {
    pub name: String,
    pub path: String,
    pub is_dir: bool,
    pub size: u64,
    /// Last modification, in seconds since the Unix epoch, where known.
    pub modified: Option<u64>,
}

/// The current directory and its listed entries.
pub struct FileSystem {
    pub current_path: String,
    pub entries: Vec<FileEntry>,
}

/// Whether a name is hidden: it starts with a dot.
pub open spec fn is_hidden(name: Seq<char>) -> bool {
    name.len() > 0 && name[0] == '.'
}

/// The entries that are listed, in their given order.
pub open spec fn visible(entries: Seq<FileEntry>) -> Seq<FileEntry> {
    entries.filter(|e: FileEntry| !is_hidden(e.name@))
}

/// `a` is at most `b` in character-code order (a prefix comes first).
pub open spec fn text_le(a: Seq<char>, b: Seq<char>) -> bool
    decreases a.len(),
{
    if a.len() == 0 {
        true
    } else if b.len() == 0 {
        false
    } else if a[0] != b[0] {
        a[0] < b[0]
    } else {
        text_le(a.drop_first(), b.drop_first())
    }
}

/// `a` may be listed before `b`: directories first, then by lower-cased name.
pub open spec fn entry_le(a: FileEntry, b: FileEntry) -> bool {
    (a.is_dir && !b.is_dir) || (a.is_dir == b.is_dir && text_le(lower_of(a.name@), lower_of(b.name@)))
}

/// Every entry may be listed before each later one.
pub open spec fn in_listing_order(s: Seq<FileEntry>) -> bool {
    forall|i: int, j: int| 0 <= i < j < s.len() ==> entry_le(#[trigger] s[i], #[trigger] s[j])
}

proof fn lemma_text_le_total(a: Seq<char>, b: Seq<char>)
    ensures
        text_le(a, b) || text_le(b, a),
    decreases a.len(),
{
    if a.len() > 0 && b.len() > 0 && a[0] == b[0] {
        lemma_text_le_total(a.drop_first(), b.drop_first());
    }
}

proof fn lemma_text_le_trans(a: Seq<char>, b: Seq<char>, c: Seq<char>)
    requires
        text_le(a, b),
        text_le(b, c),
    ensures
        text_le(a, c),
    decreases a.len(),
{
    if a.len() > 0 && b.len() > 0 && c.len() > 0 && a[0] == b[0] && b[0] == c[0] {
        lemma_text_le_trans(a.drop_first(), b.drop_first(), c.drop_first());
    }
}

/// Where `e` goes in `t`: after the leading entries that may be listed before it.
pub open spec fn insertion_point(t: Seq<FileEntry>, e: FileEntry) -> nat
    decreases t.len(),
{
    if t.len() == 0 || !entry_le(t[0], e) {
        0
    } else {
        1 + insertion_point(t.drop_first(), e)
    }
}

/// The listing of `s`: each entry in turn put after every listed entry that
/// may come before it, so entries with equal keys keep their order.
pub open spec fn listing(s: Seq<FileEntry>) -> Seq<FileEntry>
    decreases s.len(),
{
    if s.len() == 0 {
        s
    } else {
        let t = listing(s.drop_last());
        t.insert(insertion_point(t, s.last()) as int, s.last())
    }
}

proof fn lemma_insertion_point(t: Seq<FileEntry>, e: FileEntry, j: int)
    requires
        0 <= j <= t.len(),
        forall|k: int| 0 <= k < j ==> entry_le(#[trigger] t[k], e),
        j == t.len() || !entry_le(t[j], e),
    ensures
        insertion_point(t, e) == j,
    decreases j,
{
    if j > 0 {
        assert(entry_le(t[0], e));
        assert forall|k: int| 0 <= k < j - 1 implies entry_le(#[trigger] t.drop_first()[k], e) by {
            assert(t.drop_first()[k] == t[k + 1]);
        }
        if j < t.len() {
            assert(t.drop_first()[j - 1] == t[j]);
        }
        lemma_insertion_point(t.drop_first(), e, j - 1);
    }
}

proof fn lemma_entry_le_total(a: FileEntry, b: FileEntry)
    ensures
        entry_le(a, b) || entry_le(b, a),
{
    lemma_text_le_total(lower_of(a.name@), lower_of(b.name@));
}

proof fn lemma_entry_le_trans(a: FileEntry, b: FileEntry, c: FileEntry)
    requires
        entry_le(a, b),
        entry_le(b, c),
    ensures
        entry_le(a, c),
{
    if a.is_dir == b.is_dir && b.is_dir == c.is_dir {
        lemma_text_le_trans(lower_of(a.name@), lower_of(b.name@), lower_of(c.name@));
    }
}

fn text_le_exec(a: &str, b: &str) -> (r: bool)
    ensures
        r == text_le(a@, b@),
{
    let n = a.unicode_len();
    let m = b.unicode_len();
    let mut i: usize = 0;
    assert(a@.skip(0) =~= a@ && b@.skip(0) =~= b@);
    while i < n && i < m
        invariant
            n == a@.len(),
            m == b@.len(),
            i <= n,
            i <= m,
            text_le(a@, b@) == text_le(a@.skip(i as int), b@.skip(i as int)),
        decreases n - i,
    {
        let x = a.get_char(i);
        let y = b.get_char(i);
        assert(a@.skip(i as int)[0] == x && b@.skip(i as int)[0] == y);
        if x != y {
            return x < y;
        }
        assert(a@.skip(i as int).drop_first() =~= a@.skip(i + 1));
        assert(b@.skip(i as int).drop_first() =~= b@.skip(i + 1));
        i = i + 1;
    }
    assert(i == n ==> a@.skip(i as int).len() == 0);
    assert(i < n ==> b@.skip(i as int).len() == 0 && a@.skip(i as int).len() > 0);
    i == n
}

fn starts_with_dot(name: &str) -> (r: bool)
    ensures
        r == is_hidden(name@),
{
    name.unicode_len() > 0 && name.get_char(0) == '.'
}

impl FileSystem {
    /// A directory whose entries are not read yet.
    pub fn new(path: String) -> (r: Self)
        ensures
            r.current_path@ == path@,
            r.entries@.len() == 0,
    {
        FileSystem { current_path: path, entries: Vec::new() }
    }

    /// The entry at `index`, if there is one.
    pub fn get_selected(&self, index: usize) -> (r: Option<&FileEntry>)
        ensures
            index < self.entries@.len() ==> r == Some(&self.entries@[index as int]),
            index >= self.entries@.len() ==> r is None,
    {
        if index < self.entries.len() {
            Some(&self.entries[index])
        } else {
            None
        }
    }

    /// Replaces the entries by the non-hidden ones of `listed`, directories
    /// first and then by lower-cased name; equal keys keep their given order.
    pub fn set_entries(&mut self, listed: Vec<FileEntry>)
        ensures
            final(self).current_path == old(self).current_path,
            final(self).entries@.to_multiset() == visible(listed@).to_multiset(),
            in_listing_order(final(self).entries@),
            final(self).entries@ == listing(visible(listed@)),
    {
        let ghost all = listed@;
        let mut out: Vec<FileEntry> = Vec::new();
        let mut keys: Vec<String> = Vec::new();
        let mut rest = listed;
        assert(all.skip(0) =~= all);
        let ghost total = rest@.len();
        assert(visible(all.take(0)) =~= Seq::<FileEntry>::empty()) by {
            reveal(Seq::filter);
        }
        while rest.len() > 0
            invariant
                total == all.len(),
                rest@.len() <= total,
                rest@ =~= all.skip(total - rest@.len()),
                keys@.len() == out@.len(),
                forall|k: int| 0 <= k < out@.len() ==> #[trigger] keys@[k]@ == lower_of(out@[k].name@),
                out@.to_multiset() == visible(all.take(total - rest@.len())).to_multiset(),
                in_listing_order(out@),
                out@ == listing(visible(all.take(total - rest@.len()))),
            decreases rest@.len(),
        {
            let ghost done = total - rest@.len();
            let entry = rest.remove(0);
            assert(entry == all[done]);
            assert(all.take(done + 1) =~= all.take(done).push(entry));
            proof {
                reveal(Seq::filter);
                assert(all.take(done + 1).drop_last() =~= all.take(done));
                assert(visible(all.take(done + 1)) == if is_hidden(entry.name@) {
                    visible(all.take(done))
                } else {
                    visible(all.take(done)).push(entry)
                });
                to_multiset_build(visible(all.take(done)), entry);
            }
            assert(rest@ =~= all.skip(total - rest@.len()));
            if !starts_with_dot(entry.name.as_str()) {
                let key = lowercase(entry.name.as_str());
                let mut j: usize = 0;
                let mut placed = false;
                while j < out.len() && !placed
                    invariant
                        keys@.len() == out@.len(),
                        key@ == lower_of(entry.name@),
                        j <= out@.len(),
                        forall|k: int| 0 <= k < out@.len() ==> #[trigger] keys@[k]@ == lower_of(out@[k].name@),
                        !placed ==> forall|k: int| 0 <= k < j ==> entry_le(#[trigger] out@[k], entry),
                        placed ==> j < out@.len() && forall|k: int| 0 <= k < j ==> entry_le(#[trigger] out@[k], entry),
                        placed ==> !entry_le(out@[j as int], entry),
                    decreases out@.len() - j + if placed { 0int } else { 1int },
                {
                    let other_dir = out[j].is_dir;
                    let le = (other_dir && !entry.is_dir)
                        || (other_dir == entry.is_dir && text_le_exec(keys[j].as_str(), key.as_str()));
                    if le {
                        j = j + 1;
                    } else {
                        placed = true;
                    }
                }
                proof {
                    assert forall|k: int| j <= k < out@.len() implies entry_le(entry, #[trigger] out@[k]) by {
                        lemma_entry_le_total(out@[j as int], entry);
                        if k > j {
                            lemma_entry_le_trans(entry, out@[j as int], out@[k]);
                        }
                    }
                }
                proof {
                    lemma_insertion_point(out@, entry, j as int);
                    assert(visible(all.take(done)).push(entry).drop_last() =~= visible(all.take(done)));
                }
                let ghost before = out@;
                let ghost before_keys = keys@;
                out.insert(j, entry);
                keys.insert(j, key);
                proof {
                    to_multiset_insert(before, j as int, entry);
                    assert forall|a: int, b: int| 0 <= a < b < out@.len() implies entry_le(#[trigger] out@[a], #[trigger] out@[b]) by {
                        if a < j && b == j {
                        } else if a < j && b > j {
                            lemma_entry_le_trans(before[a], entry, before[b - 1]);
                        } else if a == j {
                        } else if a < j {
                        } else {
                        }
                    }
                    assert forall|k: int| 0 <= k < out@.len() implies #[trigger] keys@[k]@ == lower_of(out@[k].name@) by {
                        if k < j {
                        } else if k == j {
                        } else {
                            assert(keys@[k] == before_keys[k - 1] && out@[k] == before[k - 1]);
                        }
                    }
                }
            }
        }
        assert(all.take(total as int) =~= all);
        self.entries = out;
    }
}

} // verus!
