//! The local lookup structure of a cache.
//!
//! An association from owned string keys to owned values, with each key
//! present at most once.  It stands where the original map sat so that
//! lookups and updates carry exact contracts over a `Map` model.

use vstd::prelude::*;

verus! {

/// One key/value pair of the store.
pub struct Entry<V> {
    pub key: String,
    pub value: V,
}

/// The map a sequence of entries denotes: later entries win, though the
/// store keeps keys unique so each key occurs once.
pub open spec fn entries_view<V>(s: Seq<Entry<V>>) -> Map<Seq<char>, V>
    decreases s.len(),
{
    if s.len() == 0 {
        Map::empty()
    } else {
        entries_view(s.drop_last()).insert(s.last().key@, s.last().value)
    }
}

/// Whether no two entries share a key.
pub open spec fn keys_unique<V>(s: Seq<Entry<V>>) -> bool {
    forall|i: int, j: int| 0 <= i < j < s.len() ==> s[i].key@ != s[j].key@
}

/// Every entry's key is in the denoted map, and every key of the map
/// comes from some entry.
proof fn lemma_entries_view_dom<V>(s: Seq<Entry<V>>)
    ensures
        forall|i: int| 0 <= i < s.len() ==> entries_view(s).contains_key(#[trigger] s[i].key@),
        forall|k: Seq<char>|
            entries_view(s).contains_key(k) ==> exists|i: int|
                0 <= i < s.len() && #[trigger] s[i].key@ == k,
    decreases s.len(),
{
    if s.len() > 0 {
        lemma_entries_view_dom(s.drop_last());
        assert forall|i: int| 0 <= i < s.len() implies entries_view(s).contains_key(
            #[trigger] s[i].key@) by {
            if i < s.len() - 1 {
                assert(s.drop_last()[i] == s[i]);
            }
        }
        assert forall|k: Seq<char>| entries_view(s).contains_key(k) implies exists|i: int|
            0 <= i < s.len() && #[trigger] s[i].key@ == k by {
            if k == s.last().key@ {
                assert(s[s.len() - 1].key@ == k);
            } else {
                assert(entries_view(s.drop_last()).contains_key(k));
                let i = choose|i: int|
                    0 <= i < s.drop_last().len() && #[trigger] s.drop_last()[i].key@ == k;
                assert(s.drop_last()[i] == s[i]);
                assert(s[i].key@ == k);
            }
        }
    }
}

/// With unique keys, the entry at any index is what the map holds for
/// that key.
proof fn lemma_entries_view_at<V>(s: Seq<Entry<V>>, i: int)
    requires
        keys_unique(s),
        0 <= i < s.len(),
    ensures
        entries_view(s).contains_key(s[i].key@),
        entries_view(s)[s[i].key@] == s[i].value,
    decreases s.len(),
{
    if i == s.len() - 1 {
    } else {
        assert(keys_unique(s.drop_last()));
        assert(s.drop_last()[i] == s[i]);
        lemma_entries_view_at(s.drop_last(), i);
        assert(s[i].key@ != s.last().key@);
    }
}

/// With unique keys, replacing the entry at an index by one with the
/// same key updates the denoted map at that key alone.
proof fn lemma_entries_view_update<V>(s: Seq<Entry<V>>, i: int, e: Entry<V>)
    requires
        keys_unique(s),
        0 <= i < s.len(),
        e.key@ == s[i].key@,
    ensures
        entries_view(s.update(i, e)) =~= entries_view(s).insert(e.key@, e.value),
    decreases s.len(),
{
    let t = s.update(i, e);
    if i == s.len() - 1 {
        assert(t.drop_last() =~= s.drop_last());
        assert(t.last() == e);
    } else {
        assert(keys_unique(s.drop_last()));
        assert(s.drop_last()[i] == s[i]);
        lemma_entries_view_update(s.drop_last(), i, e);
        assert(t.drop_last() =~= s.drop_last().update(i, e));
        assert(t.last() == s.last());
        assert(s[i].key@ != s.last().key@);
    }
}

/// With unique keys the denoted map has exactly one key per entry.
proof fn lemma_entries_view_dom_len<V>(s: Seq<Entry<V>>)
    requires
        keys_unique(s),
    ensures
        entries_view(s).dom().finite(),
        entries_view(s).dom().len() == s.len(),
    decreases s.len(),
{
    if s.len() == 0 {
        assert(entries_view(s).dom() =~= Set::<Seq<char>>::empty());
    } else {
        assert(keys_unique(s.drop_last()));
        lemma_entries_view_dom_len(s.drop_last());
        lemma_entries_view_dom(s.drop_last());
        let k = s.last().key@;
        assert(!entries_view(s.drop_last()).contains_key(k)) by {
            if entries_view(s.drop_last()).contains_key(k) {
                let i = choose|i: int|
                    0 <= i < s.drop_last().len() && #[trigger] s.drop_last()[i].key@ == k;
                assert(s[i].key@ == s[s.len() - 1].key@);
            }
        }
        assert(entries_view(s).dom() =~= entries_view(s.drop_last()).dom().insert(k));
        vstd::set::axiom_set_insert_len(entries_view(s.drop_last()).dom(), k);
    }
}

/// The local lookup structure: keys to owned values, each key once.
pub struct Store<V> {
    entries: Vec<Entry<V>>,
}

impl<V> View for Store<V> {
    type V = Map<Seq<char>, V>;

    closed spec fn view(&self) -> Map<Seq<char>, V> {
        entries_view(self.entries@)
    }
}

impl<V> Store<V> {
    /// Well-formedness: no two entries share a key.  Constructors
    /// establish it and mutators preserve it.
    pub closed spec fn wf(&self) -> bool {
        keys_unique(self.entries@)
    }

    /// An empty store.
    pub fn new() -> (r: Store<V>)
        ensures
            r@ == Map::<Seq<char>, V>::empty(),
            r.wf(),
    {
        Store { entries: Vec::new() }
    }

    /// The index at which a key sits, if it is present.
    fn position(&self, key: &String) -> (o: Option<usize>)
        ensures
            (match o {
                Some(i) => i < self.entries@.len() && self.entries@[i as int].key@ == key@,
                None => forall|i: int|
                    0 <= i < self.entries@.len() ==> self.entries@[i].key@ != key@,
            }),
    {
        let mut i: usize = 0;
        while i < self.entries.len()
            invariant
                i <= self.entries@.len(),
                forall|j: int| 0 <= j < i ==> self.entries@[j].key@ != key@,
            decreases self.entries@.len() - i,
        {
            if self.entries[i].key == *key {
                return Some(i);
            }
            i = i + 1;
        }
        None
    }

    /// Look a key up; absent keys return nothing.
    pub fn get<'a>(&'a self, key: &String) -> (r: Option<&'a V>)
        requires
            self.wf(),
        ensures
            (match r {
                Some(v) => self@.contains_key(key@) && *v == self@[key@],
                None => !self@.contains_key(key@),
            }),
    {
        match self.position(key) {
            Some(i) => {
                proof {
                    lemma_entries_view_at(self.entries@, i as int);
                }
                Some(&self.entries[i].value)
            },
            None => {
                proof {
                    lemma_entries_view_dom(self.entries@);
                }
                None
            },
        }
    }

    /// Add or overwrite the value under a key.
    pub fn insert(&mut self, key: String, value: V)
        requires
            old(self).wf(),
        ensures
            final(self)@ == old(self)@.insert(key@, value),
            final(self).wf(),
    {
        let ghost s0 = self.entries@;
        match self.position(&key) {
            Some(i) => {
                let ghost e = Entry { key: key, value: value };
                proof {
                    lemma_entries_view_update(s0, i as int, e);
                }
                self.entries.set(i, Entry { key, value });
                proof {
                    assert(keys_unique(self.entries@)) by {
                        assert forall|p: int, q: int|
                            0 <= p < q < self.entries@.len() implies self.entries@[p].key@
                            != self.entries@[q].key@ by {
                            assert(s0[p].key@ != s0[q].key@);
                        }
                    }
                }
            },
            None => {
                self.entries.push(Entry { key, value });
                proof {
                    assert(self.entries@.drop_last() =~= s0);
                    assert(keys_unique(self.entries@)) by {
                        assert forall|p: int, q: int|
                            0 <= p < q < self.entries@.len() implies self.entries@[p].key@
                            != self.entries@[q].key@ by {
                            if q < self.entries@.len() - 1 {
                                assert(s0[p].key@ != s0[q].key@);
                            }
                        }
                    }
                }
            },
        }
    }

    /// A point-in-time copy of every key, each exactly once, in no
    /// promised order.
    pub fn keys(&self) -> (r: Vec<String>)
        requires
            self.wf(),
        ensures
            r@.len() == self@.dom().len(),
            forall|i: int, j: int| 0 <= i < j < r@.len() ==> r@[i]@ != r@[j]@,
            forall|i: int| 0 <= i < r@.len() ==> self@.contains_key(#[trigger] r@[i]@),
            forall|k: Seq<char>|
                self@.contains_key(k) ==> exists|i: int| 0 <= i < r@.len() && #[trigger] r@[i]@
                    == k,
    {
        proof {
            lemma_entries_view_dom(self.entries@);
            lemma_entries_view_dom_len(self.entries@);
        }
        let mut r: Vec<String> = Vec::new();
        let mut i: usize = 0;
        while i < self.entries.len()
            invariant
                i <= self.entries@.len(),
                r@.len() == i,
                forall|j: int| 0 <= j < i ==> r@[j]@ == self.entries@[j].key@,
            decreases self.entries@.len() - i,
        {
            r.push(self.entries[i].key.clone());
            i = i + 1;
        }
        proof {
            assert forall|k: Seq<char>| self@.contains_key(k) implies exists|i: int|
                0 <= i < r@.len() && #[trigger] r@[i]@ == k by {
                let i = choose|i: int|
                    0 <= i < self.entries@.len() && #[trigger] self.entries@[i].key@ == k;
                assert(r@[i]@ == k);
            }
            assert forall|p: int, q: int| 0 <= p < q < r@.len() implies r@[p]@ != r@[q]@ by {
                assert(self.entries@[p].key@ != self.entries@[q].key@);
            }
        }
        r
    }
}

} // verus!
