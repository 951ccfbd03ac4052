//! A small map from names to text, kept as a list of entries with distinct
//! keys. Sessions hold a handful of notes and snippets, so a list is enough
//! and keeps the order in which entries arrived.

use vstd::prelude::*;
use crate::text::{lemma_text_order_total, sorts_before, str_eq, string_views, text_before};

verus! {

/// One cached text under its key.
#[derive(Debug)]
struct CacheEntry {
    key: String,
    value: String,
}

/// A map from keys to text.
#[derive(Debug)]
pub struct TextCache {
    entries: Vec<CacheEntry>,
}

/// No key occurs twice in `entries`.
spec fn distinct_keys(entries: Seq<CacheEntry>) -> bool {
    forall|i: int, j: int|
        0 <= i < entries.len() && 0 <= j < entries.len() && i != j ==> entries[i].key@
            != entries[j].key@
}

/// Whether some entry of `entries` has the key `key`.
spec fn has_key(entries: Seq<CacheEntry>, key: Seq<char>) -> bool {
    exists|i: int| 0 <= i < entries.len() && #[trigger] entries[i].key@ == key
}

/// The position of an entry with the key `key`.
spec fn position_of(entries: Seq<CacheEntry>, key: Seq<char>) -> int {
    choose|i: int| 0 <= i < entries.len() && #[trigger] entries[i].key@ == key
}

/// The map that a list of entries stands for.
spec fn entries_map(entries: Seq<CacheEntry>) -> Map<Seq<char>, Seq<char>> {
    Map::new(
        |key: Seq<char>| has_key(entries, key),
        |key: Seq<char>| entries[position_of(entries, key)].value@,
    )
}

/// With distinct keys, each entry is what the map holds under its key.
proof fn lemma_entry_in_map(entries: Seq<CacheEntry>, i: int)
    requires
        distinct_keys(entries),
        0 <= i < entries.len(),
    ensures
        entries_map(entries).contains_key(entries[i].key@),
        entries_map(entries)[entries[i].key@] == entries[i].value@,
        position_of(entries, entries[i].key@) == i,
{
    let key = entries[i].key@;
    assert(has_key(entries, key));
    let p = position_of(entries, key);
    assert(0 <= p < entries.len() && entries[p].key@ == key);
    assert(p == i);
}

/// Whether `names` lists the keys `keys`, each once, in the order in which
/// strings are sorted.
pub open spec fn is_sorted_listing(names: Seq<Seq<char>>, keys: Set<Seq<char>>) -> bool {
    &&& forall|i: int| 0 <= i < names.len() - 1 ==> text_before(#[trigger] names[i], names[i + 1])
    &&& names.to_set() == keys
    &&& names.len() == keys.len()
}

impl View for TextCache {
    type V = Map<Seq<char>, Seq<char>>;

    closed spec fn view(&self) -> Map<Seq<char>, Seq<char>> {
        entries_map(self.entries@)
    }
}

impl Clone for TextCache {
    fn clone(&self) -> (r: Self)
        ensures
            r@ == self@,
    {
        proof {
            use_type_invariant(self);
        }
        let mut entries: Vec<CacheEntry> = Vec::new();
        let mut i: usize = 0;
        while i < self.entries.len()
            invariant
                i <= self.entries.len(),
                entries@ == self.entries@.take(i as int),
            decreases self.entries.len() - i,
        {
            let e = &self.entries[i];
            entries.push(CacheEntry { key: e.key.clone(), value: e.value.clone() });
            assert(entries@ =~= self.entries@.take(i + 1));
            i = i + 1;
        }
        assert(self.entries@.take(self.entries.len() as int) =~= self.entries@);
        TextCache { entries }
    }
}

impl TextCache {
    #[verifier::type_invariant]
    closed spec fn wf(&self) -> bool {
        distinct_keys(self.entries@)
    }

    /// A cache without entries.
    pub fn new() -> (r: Self)
        ensures
            r@ == Map::<Seq<char>, Seq<char>>::empty(),
    {
        let r = TextCache { entries: Vec::new() };
        assert(r@ =~= Map::<Seq<char>, Seq<char>>::empty());
        r
    }

    /// The number of entries.
    pub fn len(&self) -> (n: usize)
        ensures
            n == self@.len(),
            self@.dom().finite(),
    {
        proof {
            use_type_invariant(self);
            lemma_entries_len(self.entries@);
        }
        self.entries.len()
    }

    fn find(&self, key: &str) -> (r: Option<usize>)
        ensures
            match r {
                Some(i) => i < self.entries.len() && self.entries@[i as int].key@ == key@,
                None => !has_key(self.entries@, key@),
            },
    {
        let mut i: usize = 0;
        while i < self.entries.len()
            invariant
                i <= self.entries.len(),
                forall|j: int| 0 <= j < i ==> self.entries@[j].key@ != key@,
            decreases self.entries.len() - i,
        {
            if str_eq(self.entries[i].key.as_str(), key) {
                return Some(i);
            }
            i = i + 1;
        }
        None
    }

    /// This cache with `value` under `key`, replacing what was there.
    pub fn insert(self, key: String, value: String) -> (r: Self)
        ensures
            r@ == self@.insert(key@, value@),
    {
        proof {
            use_type_invariant(&self);
        }
        let found = self.find(key.as_str());
        let entry = CacheEntry { key, value };
        let mut entries = self.entries;
        match found {
            Some(i) => {
                proof {
                    lemma_update_entry(entries@, i as int, entry);
                }
                entries.set(i, entry);
            },
            None => {
                proof {
                    lemma_push_entry(entries@, entry);
                }
                entries.push(entry);
            },
        }
        TextCache { entries }
    }

    /// This cache without the entry under `key`.
    pub fn remove(self, key: &str) -> (r: Self)
        ensures
            r@ == self@.remove(key@),
    {
        proof {
            use_type_invariant(&self);
        }
        let found = self.find(key);
        let mut entries = self.entries;
        match found {
            Some(i) => {
                proof {
                    lemma_remove_entry(entries@, i as int);
                }
                entries.remove(i);
            },
            None => {
                assert(entries_map(entries@) =~= entries_map(entries@).remove(key@));
            },
        }
        TextCache { entries }
    }

    /// The keys of the cache, sorted.
    pub fn sorted_keys(&self) -> (r: Vec<String>)
        ensures
            is_sorted_listing(string_views(r@), self@.dom()),
    {
        proof {
            use_type_invariant(self);
        }
        let ghost entries = self.entries@;
        let mut out: Vec<String> = Vec::new();
        let mut i: usize = 0;
        while i < self.entries.len()
            invariant
                i <= self.entries.len(),
                entries == self.entries@,
                distinct_keys(entries),
                out.len() == i,
                forall|j: int|
                    0 <= j < out.len() - 1 ==> text_before(
                        #[trigger] string_views(out@)[j],
                        string_views(out@)[j + 1],
                    ),
                forall|k: Seq<char>|
                    string_views(out@).contains(k) <==> has_key(entries.take(i as int), k),
            decreases self.entries.len() - i,
        {
            let key = &self.entries[i].key;
            let ghost names = string_views(out@);
            proof {
                assert(!names.contains(key@)) by {
                    if has_key(entries.take(i as int), key@) {
                        let e = position_of(entries.take(i as int), key@);
                        assert(entries[e].key@ == entries[i as int].key@);
                    }
                }
            }
            let mut p: usize = 0;
            while p < out.len() && !sorts_before(key.as_str(), out[p].as_str())
                invariant
                    p <= out.len(),
                    names == string_views(out@),
                    forall|j: int| 0 <= j < p ==> !text_before(key@, names[j]),
                decreases out.len() - p,
            {
                assert(names[p as int] == out@[p as int]@);
                p = p + 1;
            }
            out.insert(p, key.clone());
            proof {
                let after = string_views(out@);
                assert(after =~= names.insert(p as int, key@));
                assert forall|j: int| 0 <= j < after.len() - 1 implies text_before(
                    #[trigger] after[j],
                    after[j + 1],
                ) by {
                    if j + 1 < p {
                        assert(after[j] == names[j] && after[j + 1] == names[j + 1]);
                    } else if j + 1 == p {
                        assert(after[j] == names[j]);
                        assert(names.contains(names[j]));
                        lemma_text_order_total(names[j], key@);
                    } else if j == p {
                        assert(after[j + 1] == names[j]);
                    } else {
                        assert(after[j] == names[j - 1] && after[j + 1] == names[j]);
                        assert(text_before(names[j - 1], names[j - 1 + 1]));
                    }
                }
                assert forall|k: Seq<char>| after.contains(k) <==> has_key(
                    entries.take(i + 1),
                    k,
                ) by {
                    if after.contains(k) {
                        let j = choose|j: int| 0 <= j < after.len() && after[j] == k;
                        if j < p {
                            assert(names.contains(names[j]));
                        } else if j > p {
                            assert(names.contains(names[j - 1]));
                        }
                        if j != p {
                            let e = position_of(entries.take(i as int), k);
                            assert(entries.take(i + 1)[e].key@ == k);
                        } else {
                            assert(entries.take(i + 1)[i as int].key@ == k);
                        }
                    }
                    if has_key(entries.take(i + 1), k) {
                        let e = position_of(entries.take(i + 1), k);
                        if e < i {
                            assert(entries.take(i as int)[e].key@ == k);
                            assert(names.contains(k));
                            let j = choose|j: int| 0 <= j < names.len() && names[j] == k;
                            if j < p {
                                assert(after[j] == k);
                            } else {
                                assert(after[j + 1] == k);
                            }
                        } else {
                            assert(after[p as int] == k);
                        }
                    }
                }
            }
            i = i + 1;
        }
        proof {
            assert(entries.take(self.entries.len() as int) =~= entries);
            lemma_entries_len(entries);
            assert(string_views(out@).to_set() =~= self@.dom());
        }
        out
    }

    /// Whether the cache holds text under `key`.
    pub fn contains_key(&self, key: &str) -> (r: bool)
        ensures
            r == self@.contains_key(key@),
    {
        self.find(key).is_some()
    }

    /// The text under `key`, if any.
    pub fn get(&self, key: &str) -> (r: Option<&String>)
        ensures
            match r {
                Some(text) => self@.contains_key(key@) && self@[key@] == text@,
                None => !self@.contains_key(key@),
            },
    {
        proof {
            use_type_invariant(self);
        }
        match self.find(key) {
            Some(i) => {
                proof {
                    lemma_entry_in_map(self.entries@, i as int);
                }
                Some(&self.entries[i].value)
            },
            None => None,
        }
    }
}

/// A list with distinct keys has as many entries as its map has keys.
proof fn lemma_entries_len(entries: Seq<CacheEntry>)
    requires
        distinct_keys(entries),
    ensures
        entries_map(entries).dom().finite(),
        entries_map(entries).len() == entries.len(),
    decreases entries.len(),
{
    if entries.len() == 0 {
        assert(entries_map(entries).dom() =~= Set::<Seq<char>>::empty());
    } else {
        let front = entries.drop_last();
        let last = entries.last();
        lemma_entries_len(front);
        assert(!has_key(front, last.key@)) by {
            if has_key(front, last.key@) {
                let i = position_of(front, last.key@);
                assert(entries[i].key@ == entries[entries.len() - 1].key@);
            }
        }
        assert(entries_map(entries).dom() =~= entries_map(front).dom().insert(last.key@)) by {
            assert forall|key: Seq<char>| has_key(entries, key) <==> (has_key(front, key) || key
                == last.key@) by {
                if has_key(entries, key) {
                    let i = position_of(entries, key);
                    if i < front.len() {
                        assert(front[i].key@ == key);
                    }
                }
                if has_key(front, key) {
                    let i = position_of(front, key);
                    assert(entries[i].key@ == key);
                }
                if key == last.key@ {
                    assert(entries[entries.len() - 1].key@ == key);
                }
            }
        }
    }
}

/// Appending an entry under a new key inserts it into the map.
proof fn lemma_push_entry(entries: Seq<CacheEntry>, e: CacheEntry)
    requires
        distinct_keys(entries),
        !has_key(entries, e.key@),
    ensures
        distinct_keys(entries.push(e)),
        entries_map(entries.push(e)) == entries_map(entries).insert(e.key@, e.value@),
{
    let after = entries.push(e);
    assert(distinct_keys(after)) by {
        assert forall|i: int, j: int|
            0 <= i < after.len() && 0 <= j < after.len() && i != j implies after[i].key@
            != after[j].key@ by {
            if i < entries.len() && j < entries.len() {
                assert(entries[i].key@ != entries[j].key@);
            } else if i < entries.len() {
                assert(entries[i].key@ != e.key@);
            } else {
                assert(entries[j].key@ != e.key@);
            }
        }
    }
    assert forall|key: Seq<char>|
        entries_map(after).contains_key(key) <==> entries_map(entries).insert(
            e.key@,
            e.value@,
        ).contains_key(key) by {
        if has_key(after, key) {
            let i = position_of(after, key);
            if i < entries.len() {
                assert(entries[i].key@ == key);
            }
        }
        if has_key(entries, key) {
            let i = position_of(entries, key);
            assert(after[i].key@ == key);
        }
        if key == e.key@ {
            assert(after[entries.len() as int].key@ == key);
        }
    }
    assert forall|key: Seq<char>| entries_map(after).contains_key(key) implies entries_map(
        after,
    )[key] == entries_map(entries).insert(e.key@, e.value@)[key] by {
        let i = position_of(after, key);
        lemma_entry_in_map(after, i);
        if i < entries.len() {
            assert(entries[i].key@ == key);
            lemma_entry_in_map(entries, i);
        }
    }
    assert(entries_map(after) =~= entries_map(entries).insert(e.key@, e.value@));
}

/// Replacing an entry by one with the same key replaces its text in the map.
proof fn lemma_update_entry(entries: Seq<CacheEntry>, at: int, e: CacheEntry)
    requires
        distinct_keys(entries),
        0 <= at < entries.len(),
        entries[at].key@ == e.key@,
    ensures
        distinct_keys(entries.update(at, e)),
        entries_map(entries.update(at, e)) == entries_map(entries).insert(e.key@, e.value@),
{
    let after = entries.update(at, e);
    assert(distinct_keys(after)) by {
        assert forall|i: int, j: int|
            0 <= i < after.len() && 0 <= j < after.len() && i != j implies after[i].key@
            != after[j].key@ by {
            assert(entries[i].key@ != entries[j].key@);
        }
    }
    assert forall|key: Seq<char>|
        entries_map(after).contains_key(key) <==> entries_map(entries).insert(
            e.key@,
            e.value@,
        ).contains_key(key) by {
        if has_key(after, key) {
            let i = position_of(after, key);
            assert(entries[i].key@ == key);
        }
        if has_key(entries, key) {
            let i = position_of(entries, key);
            assert(after[i].key@ == key);
        }
        if key == e.key@ {
            assert(after[at].key@ == key);
        }
    }
    assert forall|key: Seq<char>| entries_map(after).contains_key(key) implies entries_map(
        after,
    )[key] == entries_map(entries).insert(e.key@, e.value@)[key] by {
        let i = position_of(after, key);
        lemma_entry_in_map(after, i);
        assert(entries[i].key@ == key);
        lemma_entry_in_map(entries, i);
    }
    assert(entries_map(after) =~= entries_map(entries).insert(e.key@, e.value@));
}

/// Taking an entry out of the list removes its key from the map.
proof fn lemma_remove_entry(entries: Seq<CacheEntry>, at: int)
    requires
        distinct_keys(entries),
        0 <= at < entries.len(),
    ensures
        distinct_keys(entries.remove(at)),
        entries_map(entries.remove(at)) == entries_map(entries).remove(entries[at].key@),
{
    let after = entries.remove(at);
    let gone = entries[at].key@;
    assert forall|i: int| 0 <= i < after.len() implies after[i] == entries[if i < at {
        i
    } else {
        i + 1
    }] by {}
    assert(distinct_keys(after)) by {
        assert forall|i: int, j: int|
            0 <= i < after.len() && 0 <= j < after.len() && i != j implies after[i].key@
            != after[j].key@ by {
            let oi = if i < at { i } else { i + 1 };
            let oj = if j < at { j } else { j + 1 };
            assert(entries[oi].key@ != entries[oj].key@);
        }
    }
    assert forall|key: Seq<char>|
        entries_map(after).contains_key(key) <==> entries_map(entries).remove(gone).contains_key(
            key,
        ) by {
        if has_key(after, key) {
            let i = position_of(after, key);
            let oi = if i < at { i } else { i + 1 };
            assert(entries[oi].key@ == key);
            assert(entries[oi].key@ != entries[at].key@);
        }
        if has_key(entries, key) && key != gone {
            let i = position_of(entries, key);
            let ni = if i < at { i } else { i - 1 };
            assert(after[ni].key@ == key);
        }
    }
    assert forall|key: Seq<char>| entries_map(after).contains_key(key) implies entries_map(
        after,
    )[key] == entries_map(entries).remove(gone)[key] by {
        let i = position_of(after, key);
        lemma_entry_in_map(after, i);
        let oi = if i < at { i } else { i + 1 };
        assert(entries[oi].key@ == key);
        lemma_entry_in_map(entries, oi);
    }
    assert(entries_map(after) =~= entries_map(entries).remove(gone));
}

} // verus!
