//! A small string-keyed map that keeps insertion order.
use vstd::prelude::*;

use crate::text::str_eq;

verus! {

/// String keys and values; each key appears once, and a key keeps its position when its value
/// is replaced.
#[derive(Clone, Debug, PartialEq, Eq)]
pub struct StringMap {
    entries: Vec<(String, String)>,
}

/// The first index whose key is `k`.
pub open spec fn key_index(s: Seq<(Seq<char>, Seq<char>)>, k: Seq<char>, i: int) -> Option<int>
    decreases s.len() - i,
{
    if i < 0 || i >= s.len() {
        None
    } else if s[i].0 == k {
        Some(i)
    } else {
        key_index(s, k, i + 1)
    }
}

/// The entries after storing `v` under `k`.
pub open spec fn put_entry(s: Seq<(Seq<char>, Seq<char>)>, k: Seq<char>, v: Seq<char>) -> Seq<
    (Seq<char>, Seq<char>),
> {
    match key_index(s, k, 0) {
        Some(i) => s.update(i, (k, v)),
        None => s.push((k, v)),
    }
}

/// The entries as a map from key to value.
pub open spec fn entries_map(s: Seq<(Seq<char>, Seq<char>)>) -> Map<Seq<char>, Seq<char>>
    decreases s.len(),
{
    if s.len() == 0 {
        Map::empty()
    } else {
        entries_map(s.drop_last()).insert(s.last().0, s.last().1)
    }
}

/// Where the first match of a key lies, when there is one.
proof fn lemma_key_index_found(s: Seq<(Seq<char>, Seq<char>)>, k: Seq<char>, i: int)
    requires
        0 <= i,
    ensures
        key_index(s, k, i) matches Some(x) ==> i <= x < s.len() && s[x].0 == k,
    decreases s.len() - i,
{
    if i < s.len() && s[i].0 != k {
        lemma_key_index_found(s, k, i + 1);
    }
}

/// Two entry lists with the same keys in the same places find a key at the same index.
proof fn lemma_key_index_same_keys(s: Seq<(Seq<char>, Seq<char>)>, t: Seq<(Seq<char>, Seq<char>)>, k: Seq<char>, i: int)
    requires
        s.len() == t.len(),
        forall|j: int| 0 <= j < s.len() ==> #[trigger] s[j].0 == t[j].0,
    ensures
        key_index(s, k, i) == key_index(t, k, i),
    decreases s.len() - i,
{
    if 0 <= i < s.len() {
        lemma_key_index_same_keys(s, t, k, i + 1);
    }
}

/// Appending an entry only adds a match when no earlier entry has the key.
proof fn lemma_key_index_push(s: Seq<(Seq<char>, Seq<char>)>, e: (Seq<char>, Seq<char>), k: Seq<char>, i: int)
    requires
        0 <= i <= s.len(),
    ensures
        key_index(s.push(e), k, i) == match key_index(s, k, i) {
            Some(x) => Some(x),
            None => if e.0 == k {
                Some(s.len() as int)
            } else {
                None
            },
        },
    decreases s.len() - i,
{
    if i < s.len() {
        assert(s.push(e)[i] == s[i]);
        lemma_key_index_push(s, e, k, i + 1);
    } else {
        assert(s.push(e)[i] == e);
        assert(key_index(s.push(e), k, i + 1) is None);
    }
}

/// After a value is stored under a key, the key is found with that value.
pub proof fn law_put_then_get(s: Seq<(Seq<char>, Seq<char>)>, k: Seq<char>, v: Seq<char>)
    ensures
        key_index(put_entry(s, k, v), k, 0) matches Some(i) && put_entry(s, k, v)[i].1 == v,
{
    lemma_key_index_found(s, k, 0);
    let t = put_entry(s, k, v);
    match key_index(s, k, 0) {
        Some(j) => {
            assert forall|x: int| 0 <= x < s.len() implies #[trigger] s[x].0 == t[x].0 by {}
            lemma_key_index_same_keys(s, t, k, 0);
        },
        None => {
            lemma_key_index_push(s, (k, v), k, 0);
        },
    }
}

/// Storing a value under a key leaves every other key where it was, with its value.
pub proof fn law_put_keeps_others(s: Seq<(Seq<char>, Seq<char>)>, k: Seq<char>, v: Seq<char>, o: Seq<char>)
    requires
        o != k,
    ensures
        key_index(put_entry(s, k, v), o, 0) == key_index(s, o, 0),
        key_index(s, o, 0) matches Some(i) ==> put_entry(s, k, v)[i] == s[i],
{
    lemma_key_index_found(s, k, 0);
    lemma_key_index_found(s, o, 0);
    let t = put_entry(s, k, v);
    match key_index(s, k, 0) {
        Some(j) => {
            assert forall|x: int| 0 <= x < s.len() implies #[trigger] s[x].0 == t[x].0 by {}
            lemma_key_index_same_keys(s, t, o, 0);
        },
        None => {
            lemma_key_index_push(s, (k, v), o, 0);
        },
    }
}

impl View for StringMap {
    type V = Seq<(Seq<char>, Seq<char>)>;

    closed spec fn view(&self) -> Seq<(Seq<char>, Seq<char>)> {
        self.entries@.map_values(|e: (String, String)| (e.0@, e.1@))
    }
}

impl StringMap {
    /// An empty map.
    pub fn new() -> (m: Self)
        ensures
            m@ == Seq::<(Seq<char>, Seq<char>)>::empty(),
    {
        let m = StringMap { entries: Vec::new() };
        assert(m@ =~= Seq::<(Seq<char>, Seq<char>)>::empty());
        m
    }

    /// The number of keys.
    pub fn len(&self) -> (n: usize)
        ensures
            n == self@.len(),
    {
        self.entries.len()
    }

    /// Stores a value, replacing the value of an existing key in place.
    pub fn insert(&mut self, key: String, value: String)
        ensures
            final(self)@ == put_entry(old(self)@, key@, value@),
    {
        let ghost s = self@;
        let mut i: usize = 0;
        assert(self@.len() == self.entries@.len());
        while i < self.entries.len()
            invariant
                i <= self.entries@.len(),
                s == self@,
                s == old(self)@,
                s.len() == self.entries@.len(),
                key_index(s, key@, 0) == key_index(s, key@, i as int),
            decreases self.entries@.len() - i,
        {
            assert(s[i as int] == (self.entries@[i as int].0@, self.entries@[i as int].1@));
            if str_eq(self.entries[i].0.as_str(), key.as_str()) {
                assert(key_index(s, key@, i as int) == Some(i as int));
                let ghost kv = (key@, value@);
                self.entries.set(i, (key, value));
                assert(self@ =~= s.update(i as int, kv));
                return ;
            }
            i = i + 1;
        }
        let ghost kv = (key@, value@);
        self.entries.push((key, value));
        assert(self@ =~= s.push(kv));
    }

    /// A copy of the map.
    pub fn copy(&self) -> (m: Self)
        ensures
            m@ == self@,
    {
        let mut entries: Vec<(String, String)> = Vec::new();
        let mut i: usize = 0;
        while i < self.entries.len()
            invariant
                i <= self.entries@.len(),
                self@.len() == self.entries@.len(),
                entries@.map_values(|e: (String, String)| (e.0@, e.1@)) == self@.take(i as int),
            decreases self.entries@.len() - i,
        {
            let k = self.entries[i].0.clone();
            let v = self.entries[i].1.clone();
            let ghost before = entries@.map_values(|e: (String, String)| (e.0@, e.1@));
            entries.push((k, v));
            assert(entries@.map_values(|e: (String, String)| (e.0@, e.1@)) =~= before.push(
                self@[i as int],
            ));
            i = i + 1;
            assert(entries@.map_values(|e: (String, String)| (e.0@, e.1@)) =~= self@.take(
                i as int,
            ));
        }
        assert(self@.take(self@.len() as int) =~= self@);
        StringMap { entries }
    }

    /// The value stored under a key.
    pub fn get(&self, key: &str) -> (r: Option<&str>)
        ensures
            r matches Some(v) ==> (key_index(self@, key@, 0) matches Some(i) && self@[i].1 == v@),
            r is None ==> key_index(self@, key@, 0) is None,
    {
        let mut i: usize = 0;
        while i < self.entries.len()
            invariant
                i <= self.entries@.len(),
                self@.len() == self.entries@.len(),
                key_index(self@, key@, 0) == key_index(self@, key@, i as int),
            decreases self.entries@.len() - i,
        {
            assert(self@[i as int] == (self.entries@[i as int].0@, self.entries@[i as int].1@));
            if str_eq(self.entries[i].0.as_str(), key) {
                return Some(self.entries[i].1.as_str());
            }
            i = i + 1;
        }
        None
    }
}

} // verus!
