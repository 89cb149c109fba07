//! Association tables: a vector of entries in which no key occurs twice,
//! viewed as a map from the keys' views to the stored values.

use vstd::prelude::*;

verus! {

/// A key that can be compared at run time; two keys are the same key exactly
/// when their views are equal.
pub trait Key: View + Sized {
    fn same(&self, other: &Self) -> (r: bool)
        ensures
            r == (self@ == other@),
    ;
}

impl Key for String {
    fn same(&self, other: &Self) -> (r: bool) {
        *self == *other
    }
}

/// A key with the value stored under it.
#[derive(Clone, Debug, PartialEq, Eq)]
pub struct Entry<K, V> {
    pub key: K,
    pub value: V,
}

/// No two entries of `s` carry the same key.
pub open spec fn distinct<K: Key, V>(s: Seq<Entry<K, V>>) -> bool {
    forall|i: int, j: int|
        0 <= i < s.len() && 0 <= j < s.len() && #[trigger] s[i].key@ == #[trigger] s[j].key@ ==> i
            == j
}

/// Some entry of `s` carries the key `id`.
pub open spec fn occurs<K: Key, V>(s: Seq<Entry<K, V>>, id: K::V) -> bool {
    exists|i: int| 0 <= i < s.len() && (#[trigger] s[i]).key@ == id
}

/// The position of an entry of `s` that carries the key `id`.
pub open spec fn slot<K: Key, V>(s: Seq<Entry<K, V>>, id: K::V) -> int {
    choose|i: int| 0 <= i < s.len() && (#[trigger] s[i]).key@ == id
}

/// The position of the key `id` in `s`, if it occurs.
pub open spec fn index_of<K: Key, V>(s: Seq<Entry<K, V>>, id: K::V) -> Option<int> {
    if occurs(s, id) {
        Some(slot(s, id))
    } else {
        None
    }
}

/// The map that the entries of `s` stand for.
pub open spec fn as_map<K: Key, V>(s: Seq<Entry<K, V>>) -> Map<K::V, V> {
    Map::new(|id: K::V| occurs(s, id), |id: K::V| s[slot(s, id)].value)
}

/// In a sequence without repeated keys, the entry at position `j` is the one
/// that its key is mapped to.
pub proof fn lemma_entry_found<K: Key, V>(s: Seq<Entry<K, V>>, j: int)
    requires
        distinct(s),
        0 <= j < s.len(),
    ensures
        occurs(s, s[j].key@),
        slot(s, s[j].key@) == j,
        index_of(s, s[j].key@) == Some(j),
        as_map(s).contains_key(s[j].key@),
        as_map(s)[s[j].key@] == s[j].value,
{
    let id = s[j].key@;
    assert(s[j].key@ == id);
    let k = slot(s, id);
    assert(0 <= k < s.len() && s[k].key@ == id);
}

/// Replacing the entry at position `i` by one with the same key replaces the
/// value that the key is mapped to.
pub proof fn lemma_update_entry<K: Key, V>(s: Seq<Entry<K, V>>, i: int, e: Entry<K, V>)
    requires
        distinct(s),
        0 <= i < s.len(),
        e.key@ == s[i].key@,
    ensures
        distinct(s.update(i, e)),
        as_map(s.update(i, e)) == as_map(s).insert(e.key@, e.value),
{
    let t = s.update(i, e);
    assert(forall|j: int| 0 <= j < s.len() ==> (#[trigger] t[j]).key@ == s[j].key@);
    assert(distinct(t)) by {
        assert forall|a: int, b: int|
            0 <= a < t.len() && 0 <= b < t.len() && #[trigger] t[a].key@ == #[trigger] t[b].key@
            implies a == b by {
            assert(s[a].key@ == s[b].key@);
        }
    }
    let m = as_map(s).insert(e.key@, e.value);
    assert forall|id: K::V| as_map(t).contains_key(id) <==> m.contains_key(id) by {
        if occurs(t, id) {
            let j = slot(t, id);
            assert(s[j].key@ == id);
        }
        if occurs(s, id) {
            let j = slot(s, id);
            assert(t[j].key@ == id);
        }
        if id == e.key@ {
            assert(t[i].key@ == id);
        }
    }
    assert forall|id: K::V| as_map(t).contains_key(id) implies as_map(t)[id] == m[id] by {
        let j = slot(t, id);
        lemma_entry_found(t, j);
        if j != i {
            lemma_entry_found(s, j);
        }
    }
    assert(as_map(t) =~= m);
}

/// Appending an entry with a new key adds that key to the map.
pub proof fn lemma_push_entry<K: Key, V>(s: Seq<Entry<K, V>>, e: Entry<K, V>)
    requires
        distinct(s),
        !occurs(s, e.key@),
    ensures
        distinct(s.push(e)),
        as_map(s.push(e)) == as_map(s).insert(e.key@, e.value),
{
    let t = s.push(e);
    let n = s.len() as int;
    assert(forall|j: int| 0 <= j < n ==> (#[trigger] t[j]) == s[j]);
    assert(t[n] == e);
    assert(distinct(t)) by {
        assert forall|a: int, b: int|
            0 <= a < t.len() && 0 <= b < t.len() && #[trigger] t[a].key@ == #[trigger] t[b].key@
            implies a == b by {
            if a < n && b < n {
                assert(s[a].key@ == s[b].key@);
            } else if a < n {
                assert(s[a].key@ == e.key@);
            } else if b < n {
                assert(s[b].key@ == e.key@);
            }
        }
    }
    let m = as_map(s).insert(e.key@, e.value);
    assert forall|id: K::V| as_map(t).contains_key(id) <==> m.contains_key(id) by {
        if occurs(t, id) {
            let j = slot(t, id);
            if j < n {
                assert(s[j].key@ == id);
            }
        }
        if occurs(s, id) {
            let j = slot(s, id);
            assert(t[j].key@ == id);
        }
        if id == e.key@ {
            assert(t[n].key@ == id);
        }
    }
    assert forall|id: K::V| as_map(t).contains_key(id) implies as_map(t)[id] == m[id] by {
        let j = slot(t, id);
        lemma_entry_found(t, j);
        if j < n {
            lemma_entry_found(s, j);
        }
    }
    assert(as_map(t) =~= m);
}

/// Taking out the entry at position `i` removes its key from the map.
pub proof fn lemma_remove_entry<K: Key, V>(s: Seq<Entry<K, V>>, i: int)
    requires
        distinct(s),
        0 <= i < s.len(),
    ensures
        distinct(s.remove(i)),
        as_map(s.remove(i)) == as_map(s).remove(s[i].key@),
{
    let t = s.remove(i);
    assert(forall|j: int| 0 <= j < i ==> (#[trigger] t[j]) == s[j]);
    assert(forall|j: int| i <= j < t.len() ==> (#[trigger] t[j]) == s[j + 1]);
    assert(distinct(t)) by {
        assert forall|a: int, b: int|
            0 <= a < t.len() && 0 <= b < t.len() && #[trigger] t[a].key@ == #[trigger] t[b].key@
            implies a == b by {
            let a2 = if a < i { a } else { a + 1 };
            let b2 = if b < i { b } else { b + 1 };
            assert(s[a2].key@ == s[b2].key@);
        }
    }
    let m = as_map(s).remove(s[i].key@);
    assert forall|id: K::V| as_map(t).contains_key(id) <==> m.contains_key(id) by {
        if occurs(t, id) {
            let j = slot(t, id);
            let j2 = if j < i { j } else { j + 1 };
            assert(s[j2].key@ == id);
            assert(s[i].key@ != id);
        }
        if occurs(s, id) && id != s[i].key@ {
            let j = slot(s, id);
            let j2 = if j < i { j } else { j - 1 };
            assert(t[j2].key@ == id);
        }
    }
    assert forall|id: K::V| as_map(t).contains_key(id) implies as_map(t)[id] == m[id] by {
        let j = slot(t, id);
        lemma_entry_found(t, j);
        let j2 = if j < i { j } else { j + 1 };
        lemma_entry_found(s, j2);
    }
    assert(as_map(t) =~= m);
}

/// A table from keys to values, held as a vector of entries.
#[derive(Clone, Debug, PartialEq, Eq)]
pub struct Table<K: Key, V> {
    pub entries: Vec<Entry<K, V>>,
}

impl<K: Key, V> View for Table<K, V> {
    type V = Map<K::V, V>;

    open spec fn view(&self) -> Map<K::V, V> {
        as_map(self.entries@)
    }
}

impl<K: Key, V> Table<K, V> {
    /// No key occurs twice.
    pub open spec fn wf(&self) -> bool {
        distinct(self.entries@)
    }

    /// The empty table.
    pub fn new() -> (t: Self)
        ensures
            t.wf(),
            t@ == Map::<K::V, V>::empty(),
            t.entries@ == Seq::<Entry<K, V>>::empty(),
    {
        let t = Table { entries: Vec::new() };
        assert(t@ =~= Map::<K::V, V>::empty());
        t
    }

    /// Whether no key occurs twice.
    pub fn is_sound(&self) -> (r: bool)
        ensures
            r == self.wf(),
    {
        let n: usize = self.entries.len();
        let mut i: usize = 0;
        while i < n
            invariant
                n == self.entries@.len(),
                i <= n,
                forall|a: int, b: int|
                    0 <= a < i && a < b < n ==> (#[trigger] self.entries@[a]).key@ != (
                    #[trigger] self.entries@[b]).key@,
            decreases n - i,
        {
            let mut j: usize = i + 1;
            while j < n
                invariant
                    n == self.entries@.len(),
                    i < j <= n,
                    forall|b: int|
                        i < b < j ==> self.entries@[i as int].key@ != (
                        #[trigger] self.entries@[b]).key@,
                decreases n - j,
            {
                if self.entries[i].key.same(&self.entries[j].key) {
                    assert(self.entries@[i as int].key@ == self.entries@[j as int].key@);
                    return false;
                }
                j = j + 1;
            }
            i = i + 1;
        }
        assert forall|a: int, b: int|
            0 <= a < n && 0 <= b < n && #[trigger] self.entries@[a].key@
                == #[trigger] self.entries@[b].key@ implies a == b by {
            if a < b {
                assert(self.entries@[a].key@ != self.entries@[b].key@);
            }
            if b < a {
                assert(self.entries@[b].key@ != self.entries@[a].key@);
            }
        }
        true
    }

    /// The position of `key`, if the table holds it.
    pub fn find(&self, key: &K) -> (r: Option<usize>)
        requires
            self.wf(),
        ensures
            r is Some <==> self@.contains_key(key@),
            match r {
                Some(i) => index_of(self.entries@, key@) == Some(i as int) && i < self.entries@.len()
                    && self.entries@[i as int].key@ == key@ && self@[key@]
                    == self.entries@[i as int].value,
                None => index_of(self.entries@, key@) is None,
            },
    {
        let mut i: usize = 0;
        while i < self.entries.len()
            invariant
                self.wf(),
                i <= self.entries@.len(),
                forall|j: int| 0 <= j < i ==> (#[trigger] self.entries@[j]).key@ != key@,
            decreases self.entries@.len() - i,
        {
            if self.entries[i].key.same(key) {
                proof {
                    lemma_entry_found(self.entries@, i as int);
                }
                return Some(i);
            }
            i = i + 1;
        }
        None
    }

    /// The value stored under `key`, if any.
    pub fn get(&self, key: &K) -> (r: Option<&V>)
        requires
            self.wf(),
        ensures
            r is Some <==> self@.contains_key(key@),
            r matches Some(v) ==> *v == self@[key@],
    {
        match self.find(key) {
            Some(i) => Some(&self.entries[i].value),
            None => None,
        }
    }

    /// Stores `value` under `key`, replacing what was stored there.
    pub fn put(&mut self, key: K, value: V)
        requires
            old(self).wf(),
        ensures
            final(self).wf(),
            final(self)@ == old(self)@.insert(key@, value),
            match index_of(old(self).entries@, key@) {
                Some(i) => 0 <= i < old(self).entries@.len() && final(self).entries@ == old(
                    self,
                ).entries@.update(i, Entry { key, value }),
                None => final(self).entries@ == old(self).entries@.push(Entry { key, value }),
            },
    {
        let found = self.find(&key);
        match found {
            Some(i) => {
                proof {
                    lemma_update_entry(self.entries@, i as int, Entry { key, value });
                }
                self.entries.set(i, Entry { key, value });
            },
            None => {
                proof {
                    lemma_push_entry(self.entries@, Entry { key, value });
                }
                self.entries.push(Entry { key, value });
            },
        }
    }

    /// Takes out the entry at position `i`.
    pub fn take_at(&mut self, i: usize) -> (e: Entry<K, V>)
        requires
            old(self).wf(),
            i < old(self).entries@.len(),
        ensures
            final(self).wf(),
            e == old(self).entries@[i as int],
            old(self)@.contains_key(e.key@),
            old(self)@[e.key@] == e.value,
            final(self)@ == old(self)@.remove(e.key@),
            final(self).entries@ == old(self).entries@.remove(i as int),
    {
        proof {
            lemma_entry_found(self.entries@, i as int);
            lemma_remove_entry(self.entries@, i as int);
        }
        self.entries.remove(i)
    }
}

} // verus!
