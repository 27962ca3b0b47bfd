//! A table of named User-Agent strings read from tab-separated text.
use vstd::prelude::*;

use crate::text::{chars_of, split_char, split_char_ranges, split_once_chars, split_once_char, range_pieces, string_of, sub_vec};
use crate::url::opt_text;

verus! {

/// A line of the text: the piece before a `\n` loses a trailing `\r`; the piece after the last
/// `\n` is a line only when it is not empty (`str::lines`).
pub open spec fn line_of_part(parts: Seq<Seq<char>>, k: int) -> Option<Seq<char>> {
    if k + 1 < parts.len() {
        let p = parts[k];
        Some(if p.len() > 0 && p.last() == '\r' {
            p.drop_last()
        } else {
            p
        })
    } else if parts[k].len() == 0 {
        None
    } else {
        Some(parts[k])
    }
}

/// The table after one line: a line `name<TAB>value` with both parts non-empty stores the
/// value under the name, replacing an earlier one; other lines are skipped.
pub open spec fn add_line(m: Map<Seq<char>, Seq<char>>, line: Seq<char>) -> Map<Seq<char>, Seq<char>> {
    match split_once_char(line, '\t') {
        Some((name, value)) => if name.len() > 0 && value.len() > 0 {
            m.insert(name, value)
        } else {
            m
        },
        None => m,
    }
}

/// The table read from the first `n` pieces of the text.
pub open spec fn map_of_parts(parts: Seq<Seq<char>>, n: int) -> Map<Seq<char>, Seq<char>>
    decreases n,
{
    if n <= 0 {
        Map::empty()
    } else {
        let m = map_of_parts(parts, n - 1);
        match line_of_part(parts, n - 1) {
            Some(l) => add_line(m, l),
            None => m,
        }
    }
}

/// The table that a tab-separated text describes.
pub open spec fn user_agent_map(data: Seq<char>) -> Map<Seq<char>, Seq<char>> {
    let parts = split_char(data, '\n');
    map_of_parts(parts, parts.len() as int)
}

/// The map that a list of entries describes, later entries replacing earlier ones.
pub open spec fn entries_map(es: Seq<(Seq<char>, Seq<char>)>) -> Map<Seq<char>, Seq<char>>
    decreases es.len(),
{
    if es.len() == 0 {
        Map::empty()
    } else {
        entries_map(es.drop_last()).insert(es.last().0, es.last().1)
    }
}

/// No name occurs twice.
pub open spec fn distinct_names(es: Seq<(Seq<char>, Seq<char>)>) -> bool {
    forall|i: int, j: int| 0 <= i < j < es.len() ==> (#[trigger] es[i]).0 != (#[trigger] es[j]).0
}

/// With distinct names, a name is in the map exactly when an entry has it, with its value.
pub proof fn lemma_entries_map(es: Seq<(Seq<char>, Seq<char>)>, k: Seq<char>)
    requires
        distinct_names(es),
    ensures
        entries_map(es).dom().contains(k) <==> exists|i: int| 0 <= i < es.len() && (#[trigger] es[i]).0 == k,
        forall|i: int| 0 <= i < es.len() && (#[trigger] es[i]).0 == k ==> entries_map(es)[k] == es[i].1,
        entries_map(es).dom().finite(),
    decreases es.len(),
{
    if es.len() > 0 {
        let p = es.drop_last();
        assert(distinct_names(p)) by {
            assert forall|i: int, j: int| 0 <= i < j < p.len() implies (#[trigger] p[i]).0 != (#[trigger] p[j]).0 by {
                assert(p[i] == es[i] && p[j] == es[j]);
            }
        }
        lemma_entries_map(p, k);
        if entries_map(es).dom().contains(k) && k != es.last().0 {
            let i = choose|i: int| 0 <= i < p.len() && (#[trigger] p[i]).0 == k;
            assert(es[i] == p[i]);
        }
        assert forall|i: int| 0 <= i < es.len() - 1 && (#[trigger] es[i]).0 == k implies entries_map(es)[k] == es[i].1 by {
            assert(es[i] == p[i]);
            assert(es[i].0 != es[es.len() - 1].0);
        }
        if exists|i: int| 0 <= i < es.len() && (#[trigger] es[i]).0 == k {
            let i = choose|i: int| 0 <= i < es.len() && (#[trigger] es[i]).0 == k;
            if i < es.len() - 1 {
                assert(p[i] == es[i]);
            }
        }
    }
}

/// Named User-Agent strings, each name stored once.
#[derive(Debug)]
pub struct UserAgentTable {
    entries: Vec<(String, String)>,
}

impl Clone for UserAgentTable {
    /// A table with the same entries.
    fn clone(&self) -> (c: Self)
        ensures
            c.entries_view() == self.entries_view(),
    {
        proof {
            use_type_invariant(self);
        }
        let mut entries: Vec<(String, String)> = Vec::new();
        let mut i: usize = 0;
        while i < self.entries.len()
            invariant
                i <= self.entries@.len(),
                entry_texts(entries@) == entry_texts(self.entries@).take(i as int),
            decreases self.entries@.len() - i,
        {
            let ghost before = entry_texts(entries@);
            let name = self.entries[i].0.clone();
            let value = self.entries[i].1.clone();
            entries.push((name, value));
            assert(entry_texts(entries@) =~= before.push(entry_texts(self.entries@)[i as int]));
            i = i + 1;
            assert(entry_texts(entries@) =~= entry_texts(self.entries@).take(i as int));
        }
        assert(entry_texts(self.entries@).take(i as int) =~= entry_texts(self.entries@));
        UserAgentTable { entries }
    }
}

/// The names of a list of entries.
pub open spec fn entry_names(es: Seq<(Seq<char>, Seq<char>)>) -> Seq<Seq<char>> {
    Seq::new(es.len(), |i: int| es[i].0)
}

/// The texts of a list of strings.
pub open spec fn string_texts(v: Seq<String>) -> Seq<Seq<char>> {
    Seq::new(v.len(), |i: int| v[i]@)
}

/// The texts of a list of string pairs.
pub open spec fn entry_texts(v: Seq<(String, String)>) -> Seq<(Seq<char>, Seq<char>)> {
    v.map_values(|e: (String, String)| (e.0@, e.1@))
}

impl UserAgentTable {
    /// The entries in the order in which their names first came.
    pub closed spec fn entries_view(&self) -> Seq<(Seq<char>, Seq<char>)> {
        entry_texts(self.entries@)
    }

    /// The names in the order in which they first came.
    pub open spec fn names_view(&self) -> Seq<Seq<char>> {
        entry_names(self.entries_view())
    }

    /// The table as a map from names to User-Agent strings.
    pub open spec fn map_view(&self) -> Map<Seq<char>, Seq<char>> {
        entries_map(self.entries_view())
    }

    /// Every name is stored once.
    #[verifier::type_invariant]
    spec fn names_once(&self) -> bool {
        distinct_names(entry_texts(self.entries@))
    }

    /// An empty table.
    pub fn new() -> (t: Self)
        ensures
            t.entries_view().len() == 0,
            t.map_view() == Map::<Seq<char>, Seq<char>>::empty(),
    {
        let t = UserAgentTable { entries: Vec::new() };
        assert(t.entries_view() =~= Seq::<(Seq<char>, Seq<char>)>::empty());
        t
    }

    /// Stores a value under a name, replacing an earlier value of the name.
    pub fn insert(&mut self, name: String, value: String)
        ensures
            final(self).map_view() == old(self).map_view().insert(name@, value@),
    {
        proof {
            use_type_invariant(&*self);
        }
        let mut entries: Vec<(String, String)> = Vec::new();
        std::mem::swap(&mut entries, &mut self.entries);
        let ghost es = entry_texts(entries@);
        assert(es == old(self).entries_view());
        let ghost n = name@;
        let ghost v = value@;
        let mut i: usize = 0;
        while i < entries.len()
            invariant
                i <= entries@.len(),
                es == entry_texts(entries@),
                es == old(self).entries_view(),
                distinct_names(es),
                n == name@,
                v == value@,
                forall|j: int| 0 <= j < i ==> (#[trigger] es[j]).0 != n,
            decreases entries@.len() - i,
        {
            assert(es[i as int] == (entries@[i as int].0@, entries@[i as int].1@));
            if crate::text::str_eq(entries[i].0.as_str(), name.as_str()) {
                let nn = entries[i].0.clone();
                entries.set(i, (nn, value));
                let ghost es2 = entry_texts(entries@);
                assert(es2 =~= es.update(i as int, (n, v)));
                assert(distinct_names(es2)) by {
                    assert forall|a: int, b: int| 0 <= a < b < es2.len() implies (#[trigger] es2[a]).0 != (#[trigger] es2[b]).0 by {
                        assert(es2[a].0 == es[a].0 && es2[b].0 == es[b].0);
                    }
                }
                proof {
                    let target = entries_map(es).insert(n, v);
                    assert forall|k: Seq<char>| #[trigger] entries_map(es2).dom().contains(k) <==> target.dom().contains(k) by {
                        lemma_entries_map(es, k);
                        lemma_entries_map(es2, k);
                        if entries_map(es2).dom().contains(k) && k != n {
                            let j = choose|j: int| 0 <= j < es2.len() && (#[trigger] es2[j]).0 == k;
                            assert(es[j] == es2[j]);
                        }
                        if entries_map(es).dom().contains(k) {
                            let j = choose|j: int| 0 <= j < es.len() && (#[trigger] es[j]).0 == k;
                            assert(es2[j].0 == k);
                        }
                        if k == n {
                            assert(es2[i as int].0 == k);
                        }
                    }
                    assert forall|k: Seq<char>| #[trigger] entries_map(es2).dom().contains(k) implies entries_map(es2)[k] == target[k] by {
                        lemma_entries_map(es, k);
                        lemma_entries_map(es2, k);
                        let j = choose|j: int| 0 <= j < es2.len() && (#[trigger] es2[j]).0 == k;
                        if k != n {
                            assert(es[j] == es2[j]);
                        } else {
                            assert(j == i);
                        }
                    }
                    assert(entries_map(es2) =~= target);
                }
                self.entries = entries;
                return;
            }
            i = i + 1;
        }
        entries.push((name, value));
        let ghost es2 = entry_texts(entries@);
        assert(es2 =~= es.push((n, v)));
        assert(es2.drop_last() =~= es);
        assert(distinct_names(es2)) by {
            assert forall|a: int, b: int| 0 <= a < b < es2.len() implies (#[trigger] es2[a]).0 != (#[trigger] es2[b]).0 by {
                if b == es2.len() - 1 {
                    assert(es2[a] == es[a]);
                } else {
                    assert(es2[a] == es[a] && es2[b] == es[b]);
                }
            }
        }
        self.entries = entries;
    }

    /// Reads a table from tab-separated text: one `name<TAB>value` per line, lines with an
    /// empty name or value or without a tab skipped, later lines replacing earlier ones.
    pub fn parse(data: &str) -> (t: Self)
        ensures
            t.map_view() == user_agent_map(data@),
    {
        let cs = chars_of(data);
        let ranges = split_char_ranges(&cs, '\n');
        let ghost parts = split_char(cs@, '\n');
        let mut table = UserAgentTable::new();
        let mut k: usize = 0;
        while k < ranges.len()
            invariant
                k <= ranges@.len(),
                parts == split_char(cs@, '\n'),
                range_pieces(cs@, ranges@) == parts,
                forall|j: int| 0 <= j < ranges@.len() ==> (#[trigger] ranges@[j]).0 <= ranges@[j].1 <= cs@.len(),
                table.map_view() == map_of_parts(parts, k as int),
            decreases ranges@.len() - k,
        {
            let piece = sub_vec(&cs, ranges[k].0, ranges[k].1);
            assert(piece@ == parts[k as int]);
            let line: Option<Vec<char>> = if k + 1 < ranges.len() {
                if piece.len() > 0 && piece[piece.len() - 1] == '\r' {
                    let l = sub_vec(&piece, 0, piece.len() - 1);
                    assert(l@ =~= piece@.drop_last());
                    Some(l)
                } else {
                    Some(piece)
                }
            } else if piece.len() == 0 {
                None
            } else {
                Some(piece)
            };
            match line {
                Some(l) => {
                    match split_once_chars(&l, '\t') {
                        Some((a, b)) => {
                            if a.len() > 0 && b.len() > 0 {
                                table.insert(string_of(&a), string_of(&b));
                            }
                        },
                        None => {},
                    }
                },
                None => {},
            }
            k = k + 1;
        }
        table
    }

    /// The User-Agent string stored under a name.
    pub fn get(&self, name: &str) -> (r: Option<String>)
        ensures
            r is Some <==> self.map_view().dom().contains(name@),
            r matches Some(v) ==> v@ == self.map_view()[name@],
    {
        self.get_user_agent(name)
    }

    /// The User-Agent string stored under a name.
    pub fn get_user_agent(&self, name: &str) -> (r: Option<String>)
        ensures
            r is Some <==> self.map_view().dom().contains(name@),
            r matches Some(v) ==> v@ == self.map_view()[name@],
    {
        proof {
            use_type_invariant(self);
        }
        let ghost es = self.entries_view();
        proof {
            lemma_entries_map(es, name@);
        }
        let mut i: usize = 0;
        while i < self.entries.len()
            invariant
                i <= self.entries@.len(),
                es == self.entries_view(),
                distinct_names(es),
                forall|j: int| 0 <= j < i ==> (#[trigger] es[j]).0 != name@,
            decreases self.entries@.len() - i,
        {
            assert(es[i as int] == (self.entries@[i as int].0@, self.entries@[i as int].1@));
            if crate::text::str_eq(self.entries[i].0.as_str(), name) {
                proof {
                    lemma_entries_map(es, name@);
                }
                return Some(self.entries[i].1.clone());
            }
            i = i + 1;
        }
        proof {
            lemma_entries_map(es, name@);
        }
        None
    }

    /// Whether a name is stored.
    pub fn has_user_agent(&self, name: &str) -> (b: bool)
        ensures
            b == self.map_view().dom().contains(name@),
    {
        self.get_user_agent(name).is_some()
    }

    /// The number of names stored.
    pub fn user_agent_count(&self) -> (n: usize)
        ensures
            n == self.names_view().len(),
    {
        self.entries.len()
    }

    /// Whether no name is stored.
    pub fn user_agent_is_empty(&self) -> (b: bool)
        ensures
            b == (self.names_view().len() == 0),
    {
        self.entries.len() == 0
    }

    /// The stored names, each once, in the order in which they first came.
    pub fn user_agent_names(&self) -> (r: Vec<String>)
        ensures
            string_texts(r@) == self.names_view(),
            forall|k: Seq<char>| self.map_view().dom().contains(k) <==> self.names_view().contains(k),
    {
        proof {
            use_type_invariant(self);
        }
        let ghost es = self.entries_view();
        let mut out: Vec<String> = Vec::new();
        let mut i: usize = 0;
        while i < self.entries.len()
            invariant
                i <= self.entries@.len(),
                es == self.entries_view(),
                out@.len() == i,
                es.len() == self.entries@.len(),
                string_texts(out@) == entry_names(es.take(i as int)),
            decreases self.entries@.len() - i,
        {
            assert(es[i as int] == (self.entries@[i as int].0@, self.entries@[i as int].1@));
            let ghost before = out@;
            let name = self.entries[i].0.clone();
            assert(name@ == es[i as int].0);
            out.push(name);
            assert forall|j: int| 0 <= j < i implies out@[j]@ == es[j].0 by {
                assert(out@[j] == before[j]);
                assert(string_texts(before)[j] == entry_names(es.take(i as int))[j]);
            }
            i = i + 1;
            assert(string_texts(out@) =~= entry_names(es.take(i as int)));
        }
        assert(es.take(i as int) =~= es);
        proof {
            assert forall|k: Seq<char>| self.map_view().dom().contains(k) <==> self.names_view().contains(k) by {
                lemma_entries_map(es, k);
                if self.names_view().contains(k) {
                    let j = choose|j: int| 0 <= j < self.names_view().len() && self.names_view()[j] == k;
                    assert(es[j].0 == k);
                }
                if self.map_view().dom().contains(k) {
                    let j = choose|j: int| 0 <= j < es.len() && (#[trigger] es[j]).0 == k;
                    assert(self.names_view()[j] == k);
                }
            }
        }
        out
    }

    /// The stored User-Agent strings, in the order of [`Self::user_agent_names`].
    pub fn user_agent_values(&self) -> (r: Vec<String>)
        ensures
            r@.len() == self.names_view().len(),
            forall|i: int| 0 <= i < r@.len() ==> (#[trigger] r@[i])@ == self.map_view()[self.names_view()[i]],
    {
        proof {
            use_type_invariant(self);
        }
        let ghost es = self.entries_view();
        let mut out: Vec<String> = Vec::new();
        let mut i: usize = 0;
        while i < self.entries.len()
            invariant
                i <= self.entries@.len(),
                es == self.entries_view(),
                distinct_names(es),
                out@.len() == i,
                forall|j: int| 0 <= j < i ==> (#[trigger] out@[j])@ == entries_map(es)[es[j].0],
            decreases self.entries@.len() - i,
        {
            proof {
                lemma_entries_map(es, es[i as int].0);
            }
            assert(es[i as int] == (self.entries@[i as int].0@, self.entries@[i as int].1@));
            out.push(self.entries[i].1.clone());
            i = i + 1;
        }
        out
    }
}

/// Reads a table of User-Agent strings from tab-separated text.
pub fn user_agents(data: &str) -> (t: UserAgentTable)
    ensures
        t.map_view() == user_agent_map(data@),
{
    UserAgentTable::parse(data)
}

} // verus!
