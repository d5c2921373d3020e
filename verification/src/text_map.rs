//! A map keyed by text, kept as a vector of entries whose keys are pairwise
//! distinct.
use vstd::prelude::*;

verus! {

/// A finite map from texts to values; a later insertion under the same key
/// replaces the earlier value.
pub struct TextMap<V: DeepView> {
    entries: Vec<(String, V)>,
}

/// The map that a list of entries denotes, a later entry winning over an
/// earlier one with the same key.
pub open spec fn entries_map<V: DeepView>(entries: Seq<(String, V)>) -> Map<Seq<char>, V::V>
    decreases entries.len(),
{
    if entries.len() == 0 {
        Map::empty()
    } else {
        let last = entries.last();
        entries_map(entries.drop_last()).insert(last.0@, last.1.deep_view())
    }
}

/// The keys of a list of entries, in order.
pub open spec fn entry_keys<V>(entries: Seq<(String, V)>) -> Seq<Seq<char>> {
    entries.map_values(|e: (String, V)| e.0@)
}

proof fn lemma_entries_map_dom<V: DeepView>(entries: Seq<(String, V)>, k: Seq<char>)
    ensures
        entries_map(entries).dom().contains(k) <==> entry_keys(entries).contains(k),
    decreases entries.len(),
{
    if entries.len() > 0 {
        lemma_entries_map_dom(entries.drop_last(), k);
        let keys = entry_keys(entries);
        let prev = entry_keys(entries.drop_last());
        assert(keys =~= prev.push(entries.last().0@));
        assert(keys[keys.len() - 1] == entries.last().0@);
        if prev.contains(k) {
            let j = choose|j: int| 0 <= j < prev.len() && prev[j] == k;
            assert(keys[j] == k);
        }
        if keys.contains(k) && k != entries.last().0@ {
            let j = choose|j: int| 0 <= j < keys.len() && keys[j] == k;
            assert(j < prev.len());
            assert(prev[j] == k);
        }
    }
}

proof fn lemma_entries_map_len<V: DeepView>(entries: Seq<(String, V)>)
    requires
        entry_keys(entries).no_duplicates(),
    ensures
        entries_map(entries).dom().finite(),
        entries_map(entries).dom().len() == entries.len(),
    decreases entries.len(),
{
    if entries.len() > 0 {
        let prev = entries.drop_last();
        assert(entry_keys(prev) =~= entry_keys(entries).drop_last());
        lemma_entries_map_len(prev);
        lemma_entries_map_dom(prev, entries.last().0@);
        let keys = entry_keys(entries);
        if entry_keys(prev).contains(entries.last().0@) {
            let j = choose|j: int| 0 <= j < entry_keys(prev).len() && entry_keys(prev)[j] == entries.last().0@;
            assert(keys[j] == keys[keys.len() - 1]);
        }
    }
}

proof fn lemma_entries_map_update<V: DeepView>(entries: Seq<(String, V)>, j: int, v: V)
    requires
        0 <= j < entries.len(),
        entry_keys(entries).no_duplicates(),
    ensures
        entries_map(entries.update(j, (entries[j].0, v))) == entries_map(entries).insert(
            entries[j].0@,
            v.deep_view(),
        ),
    decreases entries.len(),
{
    let k = entries[j].0@;
    let upd = entries.update(j, (entries[j].0, v));
    if j == entries.len() - 1 {
        assert(upd.drop_last() =~= entries.drop_last());
        assert(entries_map(upd) =~= entries_map(entries).insert(k, v.deep_view()));
    } else {
        assert(upd.drop_last() =~= entries.drop_last().update(j, (entries[j].0, v)));
        assert(entry_keys(entries.drop_last()) =~= entry_keys(entries).drop_last());
        lemma_entries_map_update(entries.drop_last(), j, v);
        let last = entries.last();
        assert(entry_keys(entries)[j] == k);
        assert(entry_keys(entries)[entries.len() - 1] == last.0@);
        assert(last.0@ != k);
        assert(entries_map(upd) =~= entries_map(entries).insert(k, v.deep_view()));
    }
}

impl<V: DeepView> View for TextMap<V> {
    type V = Map<Seq<char>, V::V>;

    closed spec fn view(&self) -> Map<Seq<char>, V::V> {
        entries_map(self.entries@)
    }
}

impl<V: DeepView> TextMap<V> {
    /// No key occurs twice among the entries.
    #[verifier::type_invariant]
    spec fn wf(&self) -> bool {
        entry_keys(self.entries@).no_duplicates()
    }

    /// The empty map.
    pub fn new() -> (m: Self)
        ensures
            m@ == Map::<Seq<char>, V::V>::empty(),
    {
        let m = TextMap { entries: Vec::new() };
        proof {
            assert(entry_keys(m.entries@) =~= Seq::<Seq<char>>::empty());
        }
        m
    }

    /// The number of keys.
    pub fn len(&self) -> (n: usize)
        ensures
            n == self@.dom().len(),
    {
        proof {
            use_type_invariant(self);
            lemma_entries_map_len(self.entries@);
        }
        self.entries.len()
    }

    /// The position of `key` among the entries, if it is there.
    fn position(&self, key: &str) -> (r: Option<usize>)
        ensures
            match r {
                Some(j) => j < self.entries@.len() && self.entries@[j as int].0@ == key@,
                None => !entry_keys(self.entries@).contains(key@),
            },
    {
        let k = crate::text::owned(key);
        let mut j: usize = 0;
        while j < self.entries.len()
            invariant
                j <= self.entries@.len(),
                k@ == key@,
                forall|i: int| 0 <= i < j ==> self.entries@[i].0@ != key@,
            decreases self.entries@.len() - j,
        {
            if self.entries[j].0 == k {
                return Some(j);
            }
            j = j + 1;
        }
        proof {
            if entry_keys(self.entries@).contains(key@) {
                let i = choose|i: int|
                    0 <= i < entry_keys(self.entries@).len() && entry_keys(self.entries@)[i]
                        == key@;
                assert(self.entries@[i].0@ == key@);
            }
        }
        None
    }

    /// Whether `key` has a value.
    pub fn contains_key(&self, key: &str) -> (r: bool)
        ensures
            r == self@.dom().contains(key@),
    {
        proof {
            use_type_invariant(self);
            lemma_entries_map_dom(self.entries@, key@);
        }
        let p = self.position(key);
        proof {
            if let Some(j) = p {
                assert(entry_keys(self.entries@)[j as int] == key@);
            }
        }
        p.is_some()
    }

    /// The value under `key`, if any.
    pub fn get(&self, key: &str) -> (r: Option<&V>)
        ensures
            r is Some <==> self@.dom().contains(key@),
            r matches Some(v) ==> v.deep_view() == self@[key@],
    {
        proof {
            use_type_invariant(self);
            lemma_entries_map_dom(self.entries@, key@);
        }
        match self.position(key) {
            Some(j) => {
                proof {
                    let e = self.entries@;
                    assert(e =~= e.update(j as int, (e[j as int].0, e[j as int].1)));
                    lemma_entries_map_update(e, j as int, e[j as int].1);
                }
                Some(&self.entries[j].1)
            },
            None => None,
        }
    }

    /// Sets the value under `key`, replacing any earlier one.
    pub fn insert(&mut self, key: String, value: V)
        ensures
            final(self)@ == old(self)@.insert(key@, value.deep_view()),
    {
        proof {
            use_type_invariant(&*self);
            lemma_entries_map_dom(self.entries@, key@);
        }
        let pos = self.position(key.as_str());
        let mut es: Vec<(String, V)> = Vec::new();
        std::mem::swap(&mut es, &mut self.entries);
        let ghost before = es@;
        match pos {
            Some(j) => {
                let k = es[j].0.clone();
                es.set(j, (k, value));
                proof {
                    assert(es@ =~= before.update(j as int, (before[j as int].0, value)));
                    lemma_entries_map_update(before, j as int, value);
                    assert(entry_keys(es@) =~= entry_keys(before));
                }
            },
            None => {
                es.push((key, value));
                proof {
                    assert(es@.drop_last() =~= before);
                    assert(entry_keys(es@) =~= entry_keys(before).push(key@));
                }
            },
        }
        self.entries = es;
    }

    /// Adds every entry of `other`, its values replacing those of `self`
    /// under the same key (`HashMap::extend`).
    pub fn extend(&mut self, other: TextMap<V>)
        ensures
            final(self)@ == old(self)@.union_prefer_right(other@),
    {
        proof {
            use_type_invariant(&other);
        }
        let ghost start = self@;
        let ghost theirs = other.entries@;
        let mut rest = other.entries;
        let mut taken: Vec<(String, V)> = Vec::new();
        proof {
            assert(theirs.take(0) =~= Seq::<(String, V)>::empty());
            assert(start.union_prefer_right(entries_map(theirs.take(0))) =~= start);
        }
        let n = rest.len();
        let mut i: usize = 0;
        let mut rev: Vec<(String, V)> = Vec::new();
        // Move the entries out in the order they were inserted.
        while rest.len() > 0
            invariant
                rest@.len() + rev@.len() == theirs.len(),
                forall|k: int| 0 <= k < rest@.len() ==> rest@[k] == theirs[k],
                forall|k: int|
                    0 <= k < rev@.len() ==> rev@[k] == theirs[theirs.len() - 1 - k],
            decreases rest@.len(),
        {
            let e = rest.pop().unwrap();
            rev.push(e);
        }
        while rev.len() > 0
            invariant
                rev@.len() + i == theirs.len(),
                n == theirs.len(),
                i <= n,
                forall|k: int|
                    0 <= k < rev@.len() ==> rev@[k] == theirs[theirs.len() - 1 - k],
                self@ == start.union_prefer_right(entries_map(theirs.take(i as int))),
            decreases rev@.len(),
        {
            let (k, v) = rev.pop().unwrap();
            proof {
                assert(theirs[i as int] == (k, v));
                assert(theirs.take(i + 1).drop_last() =~= theirs.take(i as int));
            }
            self.insert(k, v);
            proof {
                assert(self@ =~= start.union_prefer_right(
                    entries_map(theirs.take(i + 1)),
                ));
            }
            i = i + 1;
        }
        proof {
            assert(theirs.take(n as int) =~= theirs);
        }
    }
}

} // verus!
