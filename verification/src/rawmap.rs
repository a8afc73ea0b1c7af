//! The raw key/value bag a terminal response is parsed into, before
//! normalization. Keys are unique; inserting an existing key overwrites its
//! value, which is how a later TLV item deliberately shadows an earlier one
//! that shares a display name. Viewed as a `Map<Seq<char>, Seq<char>>`.

use vstd::prelude::*;

use crate::strutil::str_eq;

verus! {

/// The map denoted by an entry list: later entries overwrite earlier ones.
pub open spec fn entries_map(s: Seq<(Seq<char>, Seq<char>)>) -> Map<Seq<char>, Seq<char>>
    decreases s.len(),
{
    if s.len() == 0 {
        Map::empty()
    } else {
        entries_map(s.drop_last()).insert(s.last().0, s.last().1)
    }
}

/// No two entries share a key.
pub open spec fn unique_keys(s: Seq<(Seq<char>, Seq<char>)>) -> bool {
    forall|i: int, j: int| 0 <= i < j < s.len() ==> s[i].0 != s[j].0
}

proof fn lemma_map_at(s: Seq<(Seq<char>, Seq<char>)>, i: int)
    requires
        unique_keys(s),
        0 <= i < s.len(),
    ensures
        entries_map(s).contains_key(s[i].0),
        entries_map(s)[s[i].0] == s[i].1,
    decreases s.len(),
{
    if i < s.len() - 1 {
        assert(unique_keys(s.drop_last()));
        lemma_map_at(s.drop_last(), i);
    }
}

proof fn lemma_map_absent(s: Seq<(Seq<char>, Seq<char>)>, k: Seq<char>)
    requires
        forall|j: int| 0 <= j < s.len() ==> s[j].0 != k,
    ensures
        !entries_map(s).contains_key(k),
    decreases s.len(),
{
    if s.len() > 0 {
        lemma_map_absent(s.drop_last(), k);
    }
}

proof fn lemma_map_covered(s: Seq<(Seq<char>, Seq<char>)>, k: Seq<char>)
    requires
        entries_map(s).contains_key(k),
    ensures
        exists|i: int| 0 <= i < s.len() && s[i].0 == k,
    decreases s.len(),
{
    if s.len() > 0 {
        if s.last().0 == k {
            assert(s[s.len() - 1].0 == k);
        } else {
            lemma_map_covered(s.drop_last(), k);
        }
    }
}

proof fn lemma_map_remove(s: Seq<(Seq<char>, Seq<char>)>, i: int)
    requires
        unique_keys(s),
        0 <= i < s.len(),
    ensures
        entries_map(s.remove(i)) =~= entries_map(s).remove(s[i].0),
    decreases s.len(),
{
    if i == s.len() - 1 {
        assert(s.remove(i) =~= s.drop_last());
        assert(forall|j: int| 0 <= j < s.drop_last().len() ==> s.drop_last()[j].0 != s[i].0);
        lemma_map_absent(s.drop_last(), s[i].0);
        assert(entries_map(s.drop_last()) =~= entries_map(s).remove(s[i].0));
    } else {
        let d = s.drop_last();
        assert(unique_keys(d));
        lemma_map_remove(d, i);
        assert(s.remove(i).drop_last() =~= d.remove(i));
        assert(s.remove(i).last() == s.last());
        assert(entries_map(s.remove(i)) == entries_map(d.remove(i)).insert(s.last().0, s.last().1));
        assert(d[i] == s[i]);
        assert(s.last().0 != s[i].0);
        assert(entries_map(d.remove(i)).insert(s.last().0, s.last().1) =~= entries_map(
            s,
        ).remove(s[i].0));
    }
}

/// An insertion-ordered key/value bag with unique string keys.
#[derive(Debug)]
pub struct RawMap {
    entries: Vec<(String, String)>,
}

impl Clone for RawMap {
    /// A clone carries the same entries, in the same order.
    fn clone(&self) -> (r: Self)
        ensures
            r.pairs() =~= self.pairs(),
            r@ =~= self@,
    {
        proof {
            use_type_invariant(self);
        }
        let mut entries: Vec<(String, String)> = Vec::new();
        let mut i: usize = 0;
        while i < self.entries.len()
            invariant
                i <= self.entries.len(),
                entries@ =~= self.entries@.take(i as int),
            decreases self.entries.len() - i,
        {
            let key: String = self.entries[i].0.clone();
            let value: String = self.entries[i].1.clone();
            proof {
                assert((key, value) == self.entries@[i as int]);
            }
            entries.push((key, value));
            i = i + 1;
            proof {
                assert(entries@ =~= self.entries@.take(i as int));
            }
        }
        proof {
            assert(entries@ =~= self.entries@);
            assert forall|j: int| 0 <= j < entries@.len() implies entries.deep_view()[j]
                == self.pairs()[j] by {
                assert(entries@[j] == self.entries@[j]);
            }
            assert(entries.deep_view() =~= self.pairs());
        }
        RawMap { entries }
    }
}

impl View for RawMap {
    type V = Map<Seq<char>, Seq<char>>;

    open spec fn view(&self) -> Map<Seq<char>, Seq<char>> {
        entries_map(self.pairs())
    }
}

impl RawMap {
    /// The entry list as character sequences, in insertion order.
    pub closed spec fn pairs(&self) -> Seq<(Seq<char>, Seq<char>)> {
        self.entries.deep_view()
    }

    /// Entry keys are pairwise distinct; every `RawMap` value satisfies this.
    #[verifier::type_invariant]
    pub open spec fn wf(&self) -> bool {
        unique_keys(self.pairs())
    }

    /// An empty bag.
    pub fn new() -> (r: Self)
        ensures
            r@ =~= Map::<Seq<char>, Seq<char>>::empty(),
            r.pairs() =~= Seq::<(Seq<char>, Seq<char>)>::empty(),
    {
        RawMap { entries: Vec::new() }
    }

    fn find_index(&self, key: &str) -> (r: Option<usize>)
        ensures
            match r {
                Some(i) => i < self.pairs().len() && self.pairs()[i as int].0 == key@,
                None => forall|j: int| 0 <= j < self.pairs().len() ==> self.pairs()[j].0 != key@,
            },
    {
        let mut i: usize = 0;
        while i < self.entries.len()
            invariant
                i <= self.entries.len(),
                self.pairs().len() == self.entries.len(),
                forall|j: int| 0 <= j < i ==> self.pairs()[j].0 != key@,
            decreases self.entries.len() - i,
        {
            if str_eq(self.entries[i].0.as_str(), key) {
                assert(self.pairs()[i as int].0 == key@);
                return Some(i);
            }
            i = i + 1;
        }
        None
    }

    /// The number of entries.
    pub fn entry_count(&self) -> (r: usize)
        ensures
            r == self.pairs().len(),
    {
        self.entries.len()
    }

    /// The key of the entry at position `i`, in insertion order.
    pub fn key_at(&self, i: usize) -> (r: &String)
        requires
            i < self.pairs().len(),
        ensures
            r@ == self.pairs()[i as int].0,
    {
        &self.entries[i].0
    }

    /// The value of the entry at position `i`, in insertion order.
    pub fn value_at(&self, i: usize) -> (r: &String)
        requires
            i < self.pairs().len(),
        ensures
            r@ == self.pairs()[i as int].1,
    {
        &self.entries[i].1
    }

    /// Each entry is in the map view, under its key. The well-formedness
    /// premise comes from `use_type_invariant` at any exec value.
    pub proof fn lemma_entry_in_view(&self, i: int)
        requires
            self.wf(),
            0 <= i < self.pairs().len(),
        ensures
            self@.contains_key(self.pairs()[i].0),
            self@[self.pairs()[i].0] == self.pairs()[i].1,
    {
        lemma_map_at(self.pairs(), i);
    }

    /// Every key of the map view stems from some entry.
    pub proof fn lemma_view_covered(&self, k: Seq<char>)
        requires
            self@.contains_key(k),
        ensures
            exists|i: int| 0 <= i < self.pairs().len() && self.pairs()[i].0 == k,
    {
        lemma_map_covered(self.pairs(), k);
    }

    /// Looks a key up.
    pub fn get(&self, key: &str) -> (r: Option<&String>)
        ensures
            match r {
                Some(v) => self@.contains_key(key@) && v@ == self@[key@],
                None => !self@.contains_key(key@),
            },
    {
        proof {
            use_type_invariant(self);
        }
        match self.find_index(key) {
            Some(i) => {
                proof {
                    lemma_map_at(self.pairs(), i as int);
                }
                Some(&self.entries[i].1)
            },
            None => {
                proof {
                    lemma_map_absent(self.pairs(), key@);
                }
                None
            },
        }
    }

    /// Whether a key is present.
    pub fn contains_key(&self, key: &str) -> (r: bool)
        ensures
            r == self@.contains_key(key@),
    {
        self.get(key).is_some()
    }

    /// Whether the bag has no entries.
    pub fn is_empty(&self) -> (r: bool)
        ensures
            r <==> self@ =~= Map::<Seq<char>, Seq<char>>::empty(),
    {
        proof {
            use_type_invariant(self);
            if self.pairs().len() > 0 {
                lemma_map_at(self.pairs(), 0);
            }
        }
        self.entries.is_empty()
    }

    /// Inserts a key/value pair; an existing entry under the same key is
    /// overwritten.
    pub fn insert(&mut self, key: String, value: String)
        ensures
            final(self)@ =~= old(self)@.insert(key@, value@),
            final(self)@.contains_key(key@),
    {
        proof {
            use_type_invariant(&*self);
        }
        let ghost before = self.pairs();
        let skip: Option<usize> = self.find_index(key.as_str());
        let ghost kept = match skip {
            Some(i) => before.remove(i as int),
            None => before,
        };
        proof {
            match skip {
                Some(i) => {
                    lemma_map_remove(before, i as int);
                    assert(unique_keys(kept));
                    assert(forall|j: int| 0 <= j < kept.len() ==> kept[j].0 != key@);
                },
                None => {
                },
            }
        }
        let ghost src = self.entries@;
        let mut entries: Vec<(String, String)> = Vec::new();
        let mut i: usize = 0;
        while i < self.entries.len()
            invariant
                i <= self.entries.len(),
                src == self.entries@,
                match skip {
                    Some(s) => s < src.len() && entries@ =~= (if i <= s {
                        src.take(i as int)
                    } else {
                        src.take(s as int) + src.subrange(s as int + 1, i as int)
                    }),
                    None => entries@ =~= src.take(i as int),
                },
            decreases self.entries.len() - i,
        {
            let take_this: bool = match skip {
                Some(s) => s != i,
                None => true,
            };
            if take_this {
                let k: String = self.entries[i].0.clone();
                let v: String = self.entries[i].1.clone();
                proof {
                    assert((k, v) == src[i as int]);
                }
                entries.push((k, v));
            }
            i = i + 1;
            proof {
                match skip {
                    Some(s) => {
                        if i <= s {
                            assert(entries@ =~= src.take(i as int));
                        } else {
                            assert(entries@ =~= src.take(s as int) + src.subrange(
                                s as int + 1,
                                i as int,
                            ));
                        }
                    },
                    None => {
                        assert(entries@ =~= src.take(i as int));
                    },
                }
            }
        }
        let ghost kept_entries: Seq<(String, String)> = match skip {
            Some(s) => src.remove(s as int),
            None => src,
        };
        proof {
            match skip {
                Some(s) => {
                    assert(src.remove(s as int) =~= src.take(s as int) + src.subrange(
                        s as int + 1,
                        src.len() as int,
                    ));
                },
                None => {
                },
            }
            assert(entries@ =~= kept_entries);
            assert forall|j: int| 0 <= j < kept_entries.len() implies #[trigger] kept_entries[j].deep_view()
                == kept[j] by {
                match skip {
                    Some(s) => {
                        if j < s as int {
                            assert(kept_entries[j] == src[j]);
                            assert(kept[j] == before[j]);
                        } else {
                            assert(kept_entries[j] == src[j + 1]);
                            assert(kept[j] == before[j + 1]);
                        }
                    },
                    None => {
                        assert(kept_entries[j] == src[j]);
                    },
                }
            }
        }
        entries.push((key, value));
        proof {
            assert(entries@ =~= kept_entries.push((key, value)));
            assert forall|j: int| 0 <= j < entries@.len() implies #[trigger] entries.deep_view()[j]
                == kept.push((key@, value@))[j] by {
                if j < entries@.len() - 1 {
                    assert(entries@[j] == kept_entries[j]);
                } else {
                    assert(entries@[j] == (key, value));
                }
            }
            assert(entries.deep_view() =~= kept.push((key@, value@)));
            assert(entries.deep_view().drop_last() =~= kept);
            assert(unique_keys(entries.deep_view()));
            assert(entries_map(entries.deep_view()) == entries_map(kept).insert(key@, value@));
            assert(entries_map(entries.deep_view()) =~= entries_map(before).insert(key@, value@));
        }
        *self = RawMap { entries };
    }
}

} // verus!
