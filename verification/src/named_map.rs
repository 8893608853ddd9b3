use vstd::prelude::*;

verus! {

/// A finite map keyed by text (job names), kept as a list of entries in the
/// order in which their keys were first inserted; no key occurs twice.
pub struct NamedMap<V> {
    entries: Vec<(String, V)>,
}

/// The map that a list of entries stands for: a later entry overrides an earlier one.
pub open spec fn entries_map<V>(s: Seq<(String, V)>) -> Map<Seq<char>, V>
    decreases s.len(),
{
    if s.len() == 0 {
        Map::empty()
    } else {
        entries_map(s.drop_last()).insert(s.last().0@, s.last().1)
    }
}

/// No two entries carry the same key.
pub open spec fn keys_distinct<V>(s: Seq<(String, V)>) -> bool {
    forall|i: int, j: int| 0 <= i < j < s.len() ==> (#[trigger] s[i]).0@ != (#[trigger] s[j]).0@
}

/// A key occurs among the entries.
pub open spec fn has_key<V>(s: Seq<(String, V)>, k: Seq<char>) -> bool {
    exists|i: int| 0 <= i < s.len() && (#[trigger] s[i]).0@ == k
}

/// A key occurs among the first `k + 1` entries iff it occurs among the first `k` or is the key of entry `k`.
pub proof fn lemma_has_key_take_step<V>(s: Seq<(String, V)>, k: int, key: Seq<char>)
    requires
        0 <= k < s.len(),
    ensures
        has_key(s.take(k + 1), key) <==> (has_key(s.take(k), key) || s[k].0@ == key),
{
    if has_key(s.take(k + 1), key) {
        let i = choose|i: int| 0 <= i < s.take(k + 1).len() && (#[trigger] s.take(k + 1)[i]).0@ == key;
        if i < k {
            assert(s.take(k)[i] == s.take(k + 1)[i]);
        }
    }
    if has_key(s.take(k), key) {
        let i = choose|i: int| 0 <= i < s.take(k).len() && (#[trigger] s.take(k)[i]).0@ == key;
        assert(s.take(k + 1)[i] == s.take(k)[i]);
    }
    if s[k].0@ == key {
        assert(s.take(k + 1)[k] == s[k]);
    }
}

/// The keys of a map are exactly the keys of its entries.
pub proof fn lemma_entries_map_dom<V>(s: Seq<(String, V)>, k: Seq<char>)
    ensures
        entries_map(s).contains_key(k) <==> has_key(s, k),
    decreases s.len(),
{
    if s.len() > 0 {
        lemma_entries_map_dom(s.drop_last(), k);
        if has_key(s.drop_last(), k) {
            let i = choose|i: int| 0 <= i < s.drop_last().len() && (#[trigger] s.drop_last()[i]).0@ == k;
            assert(s[i] == s.drop_last()[i]);
        }
        if has_key(s, k) && s.last().0@ != k {
            let i = choose|i: int| 0 <= i < s.len() && (#[trigger] s[i]).0@ == k;
            assert(s.drop_last()[i] == s[i]);
        }
        if s.last().0@ == k {
            assert(s[s.len() - 1].0@ == k);
        }
    }
}

/// With distinct keys, the value under an entry's key is that entry's value.
pub proof fn lemma_entries_map_value<V>(s: Seq<(String, V)>, i: int)
    requires
        keys_distinct(s),
        0 <= i < s.len(),
    ensures
        entries_map(s).contains_key(s[i].0@),
        entries_map(s)[s[i].0@] == s[i].1,
    decreases s.len(),
{
    if i < s.len() - 1 {
        let t = s.drop_last();
        assert(t[i] == s[i]);
        assert forall|a: int, b: int| 0 <= a < b < t.len() implies (#[trigger] t[a]).0@ != (
        #[trigger] t[b]).0@ by {
            assert(t[a] == s[a]);
            assert(t[b] == s[b]);
        }
        lemma_entries_map_value(t, i);
        assert(s[i].0@ != s[s.len() - 1].0@);
    }
}

/// The map of a list is finite, and with distinct keys it has one key per entry.
pub proof fn lemma_entries_map_len<V>(s: Seq<(String, V)>)
    requires
        keys_distinct(s),
    ensures
        entries_map(s).dom().finite(),
        entries_map(s).len() == s.len(),
    decreases s.len(),
{
    if s.len() > 0 {
        let t = s.drop_last();
        assert forall|a: int, b: int| 0 <= a < b < t.len() implies (#[trigger] t[a]).0@ != (
        #[trigger] t[b]).0@ by {
            assert(t[a] == s[a]);
            assert(t[b] == s[b]);
        }
        lemma_entries_map_len(t);
        lemma_entries_map_dom(t, s.last().0@);
        if has_key(t, s.last().0@) {
            let i = choose|i: int| 0 <= i < t.len() && (#[trigger] t[i]).0@ == s.last().0@;
            assert(t[i] == s[i]);
            assert(s[i].0@ != s[s.len() - 1].0@);
        }
    }
}

/// Replacing the value of the entry at `i` changes the map at that entry's key only.
pub proof fn lemma_entries_map_update<V>(s: Seq<(String, V)>, i: int, e: (String, V))
    requires
        keys_distinct(s),
        0 <= i < s.len(),
        e.0@ == s[i].0@,
    ensures
        keys_distinct(s.update(i, e)),
        entries_map(s.update(i, e)) == entries_map(s).insert(e.0@, e.1),
{
    let u = s.update(i, e);
    assert forall|a: int, b: int| 0 <= a < b < u.len() implies (#[trigger] u[a]).0@ != (
    #[trigger] u[b]).0@ by {
        assert(s[a].0@ != s[b].0@);
    }
    assert forall|k: Seq<char>| #[trigger]
        entries_map(u).contains_key(k) == entries_map(s).insert(e.0@, e.1).contains_key(k) by {
        lemma_entries_map_dom(u, k);
        lemma_entries_map_dom(s, k);
        if has_key(s, k) {
            let j = choose|j: int| 0 <= j < s.len() && (#[trigger] s[j]).0@ == k;
            assert(u[j].0@ == k);
        }
        if has_key(u, k) {
            let j = choose|j: int| 0 <= j < u.len() && (#[trigger] u[j]).0@ == k;
            assert(s[j].0@ == k);
        }
    }
    assert forall|k: Seq<char>| #[trigger] entries_map(u).contains_key(k) implies entries_map(u)[k]
        == entries_map(s).insert(e.0@, e.1)[k] by {
        lemma_entries_map_dom(u, k);
        let j = choose|j: int| 0 <= j < u.len() && (#[trigger] u[j]).0@ == k;
        lemma_entries_map_value(u, j);
        if j != i {
            lemma_entries_map_value(s, j);
        }
    }
    assert(entries_map(u) =~= entries_map(s).insert(e.0@, e.1));
}

impl<V> View for NamedMap<V> {
    type V = Map<Seq<char>, V>;

    closed spec fn view(&self) -> Map<Seq<char>, V> {
        entries_map(self.entries@)
    }
}

impl<V> NamedMap<V> {
    #[verifier::type_invariant]
    closed spec fn distinct_keys(self) -> bool {
        keys_distinct(self.entries@)
    }

    /// The entries, in the order in which their keys were first inserted.
    pub closed spec fn entry_list(self) -> Seq<(String, V)> {
        self.entries@
    }

    /// An empty map.
    pub fn new() -> (m: Self)
        ensures
            m@ == Map::<Seq<char>, V>::empty(),
            m.entry_list() == Seq::<(String, V)>::empty(),
    {
        NamedMap { entries: Vec::new() }
    }

    /// The number of keys.
    pub fn len(&self) -> (n: usize)
        ensures
            n == self@.len(),
    {
        proof {
            use_type_invariant(self);
            lemma_entries_map_len(self.entries@);
        }
        self.entries.len()
    }

    /// The entries, each key once, in the order in which the keys were first inserted.
    pub fn entries(&self) -> (es: &Vec<(String, V)>)
        ensures
            es@ == self.entry_list(),
            keys_distinct(es@),
            entries_map(es@) == self@,
    {
        proof {
            use_type_invariant(self);
            lemma_entries_map_len(self.entries@);
        }
        &self.entries
    }

    /// Where the entry with the given key stands, if there is one.
    fn position(&self, key: &str) -> (r: Option<usize>)
        ensures
            match r {
                Some(i) => i < self.entries@.len() && self.entries@[i as int].0@ == key@,
                None => !has_key(self.entries@, key@),
            },
    {
        let wanted: String = key.to_owned();
        let n = self.entries.len();
        for i in 0..n
            invariant
                n == self.entries@.len(),
                wanted@ == key@,
                forall|j: int| 0 <= j < i ==> (#[trigger] self.entries@[j]).0@ != key@,
        {
            if self.entries[i].0 == wanted {
                return Some(i);
            }
        }
        None
    }

    /// Whether the key is present.
    pub fn contains_key(&self, key: &str) -> (b: bool)
        ensures
            b == self@.contains_key(key@),
    {
        proof {
            lemma_entries_map_dom(self.entries@, key@);
        }
        self.position(key).is_some()
    }

    /// The value under the key, if the key is present.
    pub fn get(&self, key: &str) -> (r: Option<&V>)
        ensures
            match r {
                Some(v) => self@.contains_key(key@) && *v == self@[key@],
                None => !self@.contains_key(key@),
            },
    {
        proof {
            use_type_invariant(self);
            lemma_entries_map_dom(self.entries@, key@);
        }
        match self.position(key) {
            Some(i) => {
                proof {
                    lemma_entries_map_value(self.entries@, i as int);
                }
                Some(&self.entries[i].1)
            },
            None => None,
        }
    }

    /// Sets the value under the key: a present key keeps its place, a new key goes last.
    pub fn insert(&mut self, key: String, value: V)
        ensures
            final(self)@ == old(self)@.insert(key@, value),
            !has_key(old(self).entry_list(), key@) ==> final(self).entry_list() == old(
                self,
            ).entry_list().push((key, value)),
            has_key(old(self).entry_list(), key@) ==> exists|i: int|
                0 <= i < old(self).entry_list().len() && (#[trigger] old(self).entry_list()[i]).0@
                    == key@ && final(self).entry_list() == old(self).entry_list().update(
                    i,
                    (key, value),
                ),
    {
        proof {
            use_type_invariant(&*self);
        }
        let pos = self.position(key.as_str());
        let mut entries: Vec<(String, V)> = Vec::new();
        std::mem::swap(&mut entries, &mut self.entries);
        let ghost before = entries@;
        match pos {
            Some(i) => {
                proof {
                    lemma_entries_map_update(before, i as int, (key, value));
                }
                entries.set(i, (key, value));
                assert(before[i as int].0@ == key@);
            },
            None => {
                proof {
                    lemma_entries_map_dom(before, key@);
                }
                entries.push((key, value));
                assert(entries@.drop_last() == before);
                assert forall|a: int, b: int| 0 <= a < b < entries@.len() implies (
                #[trigger] entries@[a]).0@ != (#[trigger] entries@[b]).0@ by {
                    if b == entries@.len() - 1 {
                        assert(before[a] == entries@[a]);
                    } else {
                        assert(before[a] == entries@[a]);
                        assert(before[b] == entries@[b]);
                    }
                }
            },
        }
        self.entries = entries;
    }
}

impl<V: Clone> Clone for NamedMap<V> {
    /// A copy with the same keys in the same order, each value cloned.
    fn clone(&self) -> (r: Self)
        ensures
            r.entry_list().len() == self.entry_list().len(),
            forall|i: int| 0 <= i < self.entry_list().len() ==> (#[trigger] r.entry_list()[i]).0@
                == self.entry_list()[i].0@ && cloned::<V>(self.entry_list()[i].1, r.entry_list()[i].1),
            forall|k: Seq<char>| r@.contains_key(k) <==> self@.contains_key(k),
            forall|k: Seq<char>| #[trigger] r@.contains_key(k) ==> cloned::<V>(self@[k], r@[k]),
    {
        proof {
            use_type_invariant(self);
        }
        let mut entries: Vec<(String, V)> = Vec::new();
        let n = self.entries.len();
        for i in 0..n
            invariant
                n == self.entries@.len(),
                keys_distinct(self.entries@),
                entries@.len() == i,
                forall|j: int| 0 <= j < i ==> (#[trigger] entries@[j]).0@ == self.entries@[j].0@
                    && cloned::<V>(self.entries@[j].1, entries@[j].1),
        {
            let key = self.entries[i].0.clone();
            let value = self.entries[i].1.clone();
            entries.push((key, value));
        }
        let ghost src = self.entries@;
        let ghost dst = entries@;
        assert forall|a: int, b: int| 0 <= a < b < dst.len() implies (#[trigger] dst[a]).0@ != (
        #[trigger] dst[b]).0@ by {
            assert(src[a].0@ != src[b].0@);
        }
        assert forall|k: Seq<char>| entries_map(dst).contains_key(k) <==> entries_map(src).contains_key(k) by {
            lemma_entries_map_dom(dst, k);
            lemma_entries_map_dom(src, k);
            if has_key(dst, k) {
                let j = choose|j: int| 0 <= j < dst.len() && (#[trigger] dst[j]).0@ == k;
                assert(src[j].0@ == k);
            }
            if has_key(src, k) {
                let j = choose|j: int| 0 <= j < src.len() && (#[trigger] src[j]).0@ == k;
                assert(dst[j].0@ == k);
            }
        }
        assert forall|k: Seq<char>| #[trigger] entries_map(dst).contains_key(k) implies cloned::<V>(
            entries_map(src)[k],
            entries_map(dst)[k],
        ) by {
            lemma_entries_map_dom(dst, k);
            let j = choose|j: int| 0 <= j < dst.len() && (#[trigger] dst[j]).0@ == k;
            lemma_entries_map_value(dst, j);
            lemma_entries_map_value(src, j);
        }
        NamedMap { entries }
    }
}

} // verus!
