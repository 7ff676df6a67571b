//! A map keyed by strings that remembers the order in which keys first
//! arrived.  It stands where the configuration files and the HTTP filter use
//! a `HashMap<String, _>`.
use vstd::prelude::*;

verus! {

/// The map that a list of entries denotes; later entries win.
pub open spec fn entries_map<V>(s: Seq<(String, V)>) -> Map<Seq<char>, V>
    decreases s.len(),
{
    if s.len() == 0 {
        Map::empty()
    } else {
        entries_map(s.drop_last()).insert(s.last().0@, s.last().1)
    }
}

pub open spec fn keys_distinct<V>(s: Seq<(String, V)>) -> bool {
    forall|i: int, j: int| 0 <= i < j < s.len() ==> s[i].0@ != s[j].0@
}

pub proof fn lemma_entries_map<V>(s: Seq<(String, V)>)
    requires
        keys_distinct(s),
    ensures
        forall|k: Seq<char>|
            #![trigger entries_map(s).dom().contains(k)]
            entries_map(s).dom().contains(k) <==> exists|i: int| 0 <= i < s.len() && s[i].0@ == k,
        forall|i: int| 0 <= i < s.len() ==> #[trigger] entries_map(s)[s[i].0@] == s[i].1,
        entries_map(s).dom().finite(),
        entries_map(s).len() == s.len(),
    decreases s.len(),
{
    if s.len() > 0 {
        let t = s.drop_last();
        assert(keys_distinct(t));
        lemma_entries_map(t);
        assert forall|k: Seq<char>|
            entries_map(s).dom().contains(k) <==> exists|i: int|
                0 <= i < s.len() && s[i].0@ == k by {
            if entries_map(t).dom().contains(k) {
                let i = choose|i: int| 0 <= i < t.len() && t[i].0@ == k;
                assert(s[i].0@ == k);
            }
            if k == s.last().0@ {
                assert(s[s.len() - 1].0@ == k);
            }
            if exists|i: int| 0 <= i < s.len() && s[i].0@ == k {
                let i = choose|i: int| 0 <= i < s.len() && s[i].0@ == k;
                if i < s.len() - 1 {
                    assert(t[i].0@ == k);
                }
            }
        }
        assert forall|i: int| 0 <= i < s.len() implies #[trigger] entries_map(s)[s[i].0@]
            == s[i].1 by {
            if i < s.len() - 1 {
                assert(t[i] == s[i]);
                assert(s[i].0@ != s.last().0@);
            }
        }
        assert(!entries_map(t).dom().contains(s.last().0@)) by {
            if entries_map(t).dom().contains(s.last().0@) {
                let i = choose|i: int| 0 <= i < t.len() && t[i].0@ == s.last().0@;
                assert(s[i].0@ == s[s.len() - 1].0@);
            }
        }
    }
}

/// Changing the value of one entry, under the same key, changes the map at
/// that key only and keeps the keys and their order.
pub proof fn lemma_update_entry<V>(s: Seq<(String, V)>, i: int, e: (String, V))
    requires
        keys_distinct(s),
        0 <= i < s.len(),
        e.0@ == s[i].0@,
    ensures
        keys_distinct(s.update(i, e)),
        entries_map(s.update(i, e)) == entries_map(s).insert(e.0@, e.1),
        s.update(i, e).map_values(|x: (String, V)| x.0@) == s.map_values(|x: (String, V)| x.0@),
{
    let t = s.update(i, e);
    assert(keys_distinct(t)) by {
        assert forall|a: int, b: int| 0 <= a < b < t.len() implies t[a].0@ != t[b].0@ by {
            assert(s[a].0@ != s[b].0@);
        }
    }
    lemma_entries_map(s);
    lemma_entries_map(t);
    assert forall|k: Seq<char>|
        #![trigger entries_map(t).dom().contains(k)]
        entries_map(t).dom().contains(k) <==> entries_map(s).insert(e.0@, e.1).dom().contains(k) by {
        if exists|j: int| 0 <= j < s.len() && s[j].0@ == k {
            let j = choose|j: int| 0 <= j < s.len() && s[j].0@ == k;
            assert(t[j].0@ == k);
        }
        if exists|j: int| 0 <= j < t.len() && t[j].0@ == k {
            let j = choose|j: int| 0 <= j < t.len() && t[j].0@ == k;
            assert(s[j].0@ == k);
        }
    }
    assert forall|k: Seq<char>| entries_map(t).dom().contains(k) implies entries_map(t)[k]
        == entries_map(s).insert(e.0@, e.1)[k] by {
        let j = choose|j: int| 0 <= j < t.len() && t[j].0@ == k;
        assert(entries_map(t)[t[j].0@] == t[j].1);
        if j != i {
            assert(entries_map(s)[s[j].0@] == s[j].1);
        }
    }
    assert(entries_map(t) =~= entries_map(s).insert(e.0@, e.1));
    assert(t.map_values(|x: (String, V)| x.0@) =~= s.map_values(|x: (String, V)| x.0@));
}

/// Removing one entry removes its key from the map and keeps the order of
/// the other keys.
pub proof fn lemma_remove_entry<V>(s: Seq<(String, V)>, i: int)
    requires
        keys_distinct(s),
        0 <= i < s.len(),
    ensures
        keys_distinct(s.remove(i)),
        entries_map(s.remove(i)) == entries_map(s).remove(s[i].0@),
        s.remove(i).map_values(|x: (String, V)| x.0@) == s.map_values(|x: (String, V)| x.0@).remove(
            i,
        ),
{
    let t = s.remove(i);
    assert forall|j: int| 0 <= j < t.len() implies #[trigger] t[j] == (if j < i {
        s[j]
    } else {
        s[j + 1]
    }) by {}
    assert(keys_distinct(t)) by {
        assert forall|a: int, b: int| 0 <= a < b < t.len() implies t[a].0@ != t[b].0@ by {
            let a2 = if a < i { a } else { a + 1 };
            let b2 = if b < i { b } else { b + 1 };
            assert(t[a] == s[a2]);
            assert(t[b] == s[b2]);
            assert(s[a2].0@ != s[b2].0@);
        }
    }
    lemma_entries_map(s);
    lemma_entries_map(t);
    let k0 = s[i].0@;
    assert forall|k: Seq<char>|
        #![trigger entries_map(t).dom().contains(k)]
        entries_map(t).dom().contains(k) <==> entries_map(s).remove(k0).dom().contains(k) by {
        if exists|j: int| 0 <= j < t.len() && t[j].0@ == k {
            let j = choose|j: int| 0 <= j < t.len() && t[j].0@ == k;
            let j2 = if j < i { j } else { j + 1 };
            assert(t[j] == s[j2]);
            assert(s[j2].0@ == k);
            assert(j2 != i);
            assert(s[j2].0@ != s[i].0@);
        }
        if entries_map(s).remove(k0).dom().contains(k) {
            let j = choose|j: int| 0 <= j < s.len() && s[j].0@ == k;
            assert(j != i);
            let j2 = if j < i { j } else { j - 1 };
            assert(t[j2] == s[j]);
        }
    }
    assert forall|k: Seq<char>| entries_map(t).dom().contains(k) implies entries_map(t)[k]
        == entries_map(s).remove(k0)[k] by {
        let j = choose|j: int| 0 <= j < t.len() && t[j].0@ == k;
        let j2 = if j < i { j } else { j + 1 };
        assert(t[j] == s[j2]);
        assert(entries_map(t)[t[j].0@] == t[j].1);
        assert(entries_map(s)[s[j2].0@] == s[j2].1);
    }
    assert(entries_map(t) =~= entries_map(s).remove(k0));
    assert(t.map_values(|x: (String, V)| x.0@) =~= s.map_values(|x: (String, V)| x.0@).remove(i));
}

/// String-keyed map.  Each key occurs once; `keys()` lists them in the order
/// in which they were first inserted.
#[derive(Debug)]
pub struct StrMap<V> {
    entries: Vec<(String, V)>,
}

impl<V> StrMap<V> {
    /// Each key occurs once among the entries.
    pub closed spec fn wf(&self) -> bool {
        keys_distinct(self.entries@)
    }

    /// The entries, in insertion order.
    pub closed spec fn entries(&self) -> Seq<(String, V)> {
        self.entries@
    }

    /// The keys, in insertion order.
    pub open spec fn key_seq(&self) -> Seq<Seq<char>> {
        self.entries().map_values(|e: (String, V)| e.0@)
    }

    pub open spec fn view(&self) -> Map<Seq<char>, V> {
        entries_map(self.entries())
    }

    /// Facts about the view that every map satisfies.
    pub proof fn lemma_view(&self)
        requires
            self.wf(),
        ensures
            keys_distinct(self.entries()),
            forall|k: Seq<char>|
                #![trigger self.view().dom().contains(k)]
                self.view().dom().contains(k) <==> self.key_seq().contains(k),
            forall|i: int|
                0 <= i < self.entries().len() ==> #[trigger] self.view()[self.entries()[i].0@]
                    == self.entries()[i].1,
            self.view().dom().finite(),
            self.view().len() == self.entries().len(),
            self.key_seq().len() == self.entries().len(),
    {
        lemma_entries_map(self.entries@);
        assert forall|k: Seq<char>| self.view().dom().contains(k) <==> self.key_seq().contains(k) by {
            if self.key_seq().contains(k) {
                let i = choose|i: int| 0 <= i < self.key_seq().len() && self.key_seq()[i] == k;
                assert(self.entries@[i].0@ == k);
            }
            if self.view().dom().contains(k) {
                let i = choose|i: int| 0 <= i < self.entries@.len() && self.entries@[i].0@ == k;
                assert(self.key_seq()[i] == k);
            }
        }
    }

    pub fn new() -> (m: Self)
        ensures
            m.wf(),
            m.entries() == Seq::<(String, V)>::empty(),
            m.view() == Map::<Seq<char>, V>::empty(),
    {
        StrMap { entries: Vec::new() }
    }

    pub fn len(&self) -> (n: usize)
        requires
            self.wf(),
        ensures
            n == self.entries().len(),
            n == self.view().len(),
    {
        proof {
            self.lemma_view();
        }
        self.entries.len()
    }

    pub fn is_empty(&self) -> (b: bool)
        requires
            self.wf(),
        ensures
            b == (self.entries().len() == 0),
            b == (self.view().len() == 0),
    {
        proof {
            self.lemma_view();
        }
        self.entries.len() == 0
    }

    /// Position of `key` among the entries.
    pub fn position(&self, key: &str) -> (r: Option<usize>)
        requires
            self.wf(),
        ensures
            match r {
                Some(i) => i < self.entries().len() && self.entries()[i as int].0@ == key@,
                None => !self.view().dom().contains(key@),
            },
            r is None <==> !self.view().dom().contains(key@),
    {
        proof {
            self.lemma_view();
        }
        let mut i: usize = 0;
        while i < self.entries.len()
            invariant
                self.wf(),
                i <= self.entries@.len(),
                forall|j: int| 0 <= j < i ==> self.entries@[j].0@ != key@,
            decreases self.entries@.len() - i,
        {
            if crate::text::str_eq(self.entries[i].0.as_str(), key) {
                proof {
                    self.lemma_view();
                    assert(self.key_seq()[i as int] == key@);
                    assert(self.entries@[i as int].0@ == key@);
                    assert(self.key_seq().contains(key@));
                    assert(self.view().dom().contains(key@));
                }
                return Some(i);
            }
            i = i + 1;
        }
        proof {
            if self.key_seq().contains(key@) {
                let j = choose|j: int| 0 <= j < self.key_seq().len() && self.key_seq()[j] == key@;
                assert(self.entries@[j].0@ == key@);
            }
        }
        None
    }

    pub fn contains_key(&self, key: &str) -> (b: bool)
        requires
            self.wf(),
        ensures
            b == self.view().dom().contains(key@),
    {
        self.position(key).is_some()
    }

    pub fn get(&self, key: &str) -> (r: Option<&V>)
        requires
            self.wf(),
        ensures
            match r {
                Some(v) => self.view().dom().contains(key@) && *v == self.view()[key@],
                None => !self.view().dom().contains(key@),
            },
    {
        proof {
            self.lemma_view();
        }
        match self.position(key) {
            Some(i) => Some(&self.entries[i].1),
            None => None,
        }
    }

    /// The `i`-th entry in insertion order.
    pub fn entry_at(&self, i: usize) -> (r: (&String, &V))
        requires
            i < self.entries().len(),
        ensures
            *r.0 == self.entries()[i as int].0,
            *r.1 == self.entries()[i as int].1,
    {
        (&self.entries[i].0, &self.entries[i].1)
    }

    /// Sets the value of `key`; a new key goes after all others, an existing
    /// key keeps its place (`HashMap::insert`).
    pub fn insert(&mut self, key: String, value: V)
        requires
            old(self).wf(),
        ensures
            final(self).wf(),
            final(self).view() == old(self).view().insert(key@, value),
            old(self).view().dom().contains(key@) ==> final(self).key_seq() == old(self).key_seq(),
            !old(self).view().dom().contains(key@) ==> final(self).key_seq() == old(
                self,
            ).key_seq().push(key@),
    {
        proof {
            self.lemma_view();
        }
        let pos = self.position(key.as_str());
        let ghost old_entries = self.entries@;
        proof {
            lemma_entries_map(old_entries);
        }
        match pos {
            Some(i) => {
                let mut entries: Vec<(String, V)> = Vec::new();
                std::mem::swap(&mut entries, &mut self.entries);
                entries.set(i, (key, value));
                proof {
                    assert(keys_distinct(entries@));
                    lemma_entries_map(entries@);
                    lemma_entries_map(old_entries);
                    assert(entries_map(entries@) =~= entries_map(old_entries).insert(
                        key@,
                        value,
                    )) by {
                        assert forall|k: Seq<char>|
                            #![trigger entries_map(entries@).dom().contains(k)]
                            entries_map(entries@).dom().contains(k)
                                <==> entries_map(old_entries).insert(key@, value).dom().contains(
                                k,
                            ) by {
                            if exists|j: int| 0 <= j < old_entries.len() && old_entries[j].0@ == k {
                                let j = choose|j: int|
                                    0 <= j < old_entries.len() && old_entries[j].0@ == k;
                                assert(entries@[j].0@ == k);
                            }
                            if exists|j: int| 0 <= j < entries@.len() && entries@[j].0@ == k {
                                let j = choose|j: int| 0 <= j < entries@.len() && entries@[j].0@ == k;
                                assert(old_entries[j].0@ == k);
                            }
                        }
                        assert forall|k: Seq<char>|
                            entries_map(entries@).dom().contains(k) implies entries_map(
                                entries@,
                            )[k] == entries_map(old_entries).insert(key@, value)[k] by {
                            let j = choose|j: int| 0 <= j < entries@.len() && entries@[j].0@ == k;
                            assert(entries_map(entries@)[entries@[j].0@] == entries@[j].1);
                            if j != i {
                                assert(entries_map(old_entries)[old_entries[j].0@]
                                    == old_entries[j].1);
                            }
                        }
                    }
                    assert(entries@.map_values(|e: (String, V)| e.0@) =~= old_entries.map_values(
                        |e: (String, V)| e.0@,
                    ));
                }
                self.entries = entries;
            },
            None => {
                let mut entries: Vec<(String, V)> = Vec::new();
                std::mem::swap(&mut entries, &mut self.entries);
                entries.push((key, value));
                proof {
                    assert(keys_distinct(entries@)) by {
                        assert forall|a: int, b: int|
                            0 <= a < b < entries@.len() implies entries@[a].0@ != entries@[b].0@ by {
                            if b == entries@.len() - 1 {
                                assert(entries@[a] == old_entries[a]);
                                if old_entries[a].0@ == key@ {
                                    assert(entries_map(old_entries).dom().contains(key@));
                                }
                            } else {
                                assert(entries@[a] == old_entries[a]);
                                assert(entries@[b] == old_entries[b]);
                            }
                        }
                    }
                    assert(entries@.drop_last() =~= old_entries);
                    assert(entries@.map_values(|e: (String, V)| e.0@) =~= old_entries.map_values(
                        |e: (String, V)| e.0@,
                    ).push(key@));
                }
                self.entries = entries;
            },
        }
    }
    /// Puts `value` under `key` if the key is present, and hands back the
    /// value it had there; an absent key leaves the map as it was.
    pub fn replace(&mut self, key: &str, value: V) -> (r: Option<V>)
        requires
            old(self).wf(),
        ensures
            final(self).wf(),
            final(self).key_seq() == old(self).key_seq(),
            match r {
                Some(v) => old(self).view().dom().contains(key@) && v == old(self).view()[key@]
                    && final(self).view() == old(self).view().insert(key@, value),
                None => !old(self).view().dom().contains(key@) && final(self).view() == old(
                    self,
                ).view(),
            },
    {
        proof {
            self.lemma_view();
        }
        match self.position(key) {
            Some(i) => {
                let ghost old_entries = self.entries@;
                let mut entries: Vec<(String, V)> = Vec::new();
                std::mem::swap(&mut entries, &mut self.entries);
                let (k, v) = entries.remove(i);
                entries.insert(i, (k, value));
                proof {
                    assert(entries@ =~= old_entries.update(i as int, (old_entries[i as int].0, value)));
                    lemma_update_entry(old_entries, i as int, (old_entries[i as int].0, value));
                    lemma_entries_map(old_entries);
                }
                self.entries = entries;
                Some(v)
            },
            None => None,
        }
    }
    /// Takes `key` out of the map, with its value; the other keys keep
    /// their order.
    pub fn remove(&mut self, key: &str) -> (r: Option<V>)
        requires
            old(self).wf(),
        ensures
            final(self).wf(),
            final(self).view() == old(self).view().remove(key@),
            match r {
                Some(v) => old(self).view().dom().contains(key@) && v == old(self).view()[key@],
                None => !old(self).view().dom().contains(key@) && final(self).key_seq() == old(
                    self,
                ).key_seq(),
            },
    {
        proof {
            self.lemma_view();
        }
        match self.position(key) {
            Some(i) => {
                let ghost old_entries = self.entries@;
                let mut entries: Vec<(String, V)> = Vec::new();
                std::mem::swap(&mut entries, &mut self.entries);
                let (_k, v) = entries.remove(i);
                proof {
                    lemma_remove_entry(old_entries, i as int);
                    lemma_entries_map(old_entries);
                }
                self.entries = entries;
                Some(v)
            },
            None => {
                assert(self.view().remove(key@) =~= self.view());
                None
            },
        }
    }
}

impl<V: Clone> StrMap<V> {
    /// The keys, in insertion order.
    pub fn keys(&self) -> (ks: Vec<String>)
        ensures
            ks@.map_values(|k: String| k@) == self.key_seq(),
    {
        let mut ks: Vec<String> = Vec::new();
        let mut i: usize = 0;
        while i < self.entries.len()
            invariant
                i <= self.entries@.len(),
                ks@.len() == i,
                forall|j: int| 0 <= j < i ==> #[trigger] ks@[j]@ == self.entries@[j].0@,
            decreases self.entries@.len() - i,
        {
            ks.push(self.entries[i].0.clone());
            i = i + 1;
        }
        assert(ks@.map_values(|k: String| k@) =~= self.key_seq());
        ks
    }
}

/// A read after a write gives what was written, and a write leaves every
/// other key as it was.
pub proof fn law_read_after_write<V>(m: Map<Seq<char>, V>, k: Seq<char>, v: V)
    ensures
        m.insert(k, v).dom().contains(k),
        m.insert(k, v)[k] == v,
        forall|k2: Seq<char>|
            k2 != k ==> (m.insert(k, v).dom().contains(k2) == m.dom().contains(k2) && (m.dom().contains(
                k2,
            ) ==> m.insert(k, v)[k2] == m[k2])),
{
}

/// Removing a key that was just written gives back the map, when the key
/// was not there before.
pub proof fn law_remove_undoes_insert<V>(m: Map<Seq<char>, V>, k: Seq<char>, v: V)
    requires
        !m.dom().contains(k),
    ensures
        m.insert(k, v).remove(k) == m,
{
    assert(m.insert(k, v).remove(k) =~= m);
}

} // verus!
