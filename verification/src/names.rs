use vstd::prelude::*;

use crate::text::str_eq;

verus! {

/// The key a name is stored under.
pub open spec fn key_of<V>(entry: (String, V)) -> Seq<char> {
    entry.0@
}

/// No name occurs twice among the entries.
pub open spec fn distinct_names<V>(s: Seq<(String, V)>) -> bool {
    forall|i: int, j: int|
        0 <= i < s.len() && 0 <= j < s.len() && i != j ==> #[trigger] key_of(s[i]) != #[trigger] key_of(s[j])
}

/// Whether some entry is stored under `k`.
pub open spec fn has_name<V>(s: Seq<(String, V)>, k: Seq<char>) -> bool {
    exists|i: int| 0 <= i < s.len() && #[trigger] key_of(s[i]) == k
}

/// The map that a sequence of entries stands for.
pub open spec fn entries_map<V>(s: Seq<(String, V)>) -> Map<Seq<char>, V> {
    Map::new(
        |k: Seq<char>| has_name(s, k),
        |k: Seq<char>| s[choose|i: int| 0 <= i < s.len() && #[trigger] key_of(s[i]) == k].1,
    )
}

/// The entry at `i` is what the map holds under its name.
pub proof fn lemma_entry_in_map<V>(s: Seq<(String, V)>, i: int)
    requires
        distinct_names(s),
        0 <= i < s.len(),
    ensures
        entries_map(s).contains_key(key_of(s[i])),
        entries_map(s)[key_of(s[i])] == s[i].1,
{
    let k = key_of(s[i]);
    assert(has_name(s, k));
    let j: int = choose|j: int| 0 <= j < s.len() && #[trigger] key_of(s[j]) == k;
    assert(key_of(s[j]) == k);
    if j != i {
        assert(key_of(s[i]) != key_of(s[j]));
    }
}

/// A map from names (strings) to values, kept as a vector of entries in
/// which no name occurs twice.
#[derive(Debug)]
pub struct NameMap<V> {
    entries: Vec<(String, V)>,
}

impl<V> View for NameMap<V> {
    type V = Map<Seq<char>, V>;

    closed spec fn view(&self) -> Map<Seq<char>, V> {
        entries_map(self.entries@)
    }
}

impl<V> NameMap<V> {
    /// No name is stored twice.
    #[verifier::type_invariant]
    spec fn names_distinct(self) -> bool {
        distinct_names(self.entries@)
    }

    pub fn new() -> (m: Self)
        ensures
            m@ == Map::<Seq<char>, V>::empty(),
    {
        let entries: Vec<(String, V)> = Vec::new();
        assert(distinct_names(entries@));
        let m = NameMap { entries };
        assert(m@ =~= Map::<Seq<char>, V>::empty());
        m
    }

    /// The index of the entry stored under `name`, if any.
    fn index_of(entries: &Vec<(String, V)>, name: &str) -> (r: Option<usize>)
        ensures
            match r {
                Some(i) => i < entries.len() && key_of(entries@[i as int]) == name@,
                None => !has_name(entries@, name@),
            },
    {
        let mut i: usize = 0;
        while i < entries.len()
            invariant
                i <= entries.len(),
                forall|j: int| 0 <= j < i ==> #[trigger] key_of(entries@[j]) != name@,
            decreases entries.len() - i,
        {
            if str_eq(entries[i].0.as_str(), name) {
                return Some(i);
            }
            i = i + 1;
        }
        None
    }

    /// The number of names stored.
    pub fn len(&self) -> (n: usize)
        ensures
            n == self@.len(),
    {
        proof {
            use_type_invariant(self);
            self.lemma_len();
        }
        self.entries.len()
    }

    proof fn lemma_len(&self)
        requires
            distinct_names(self.entries@),
        ensures
            self@.dom().finite(),
            self@.len() == self.entries.len(),
    {
        let s = self.entries@;
        let keys = s.map_values(|e: (String, V)| key_of(e));
        assert forall|i: int, j: int| 0 <= i < keys.len() && 0 <= j < keys.len() && i != j
            implies keys[i] != keys[j] by {
            assert(key_of(s[i]) != key_of(s[j]));
        }
        assert(keys.no_duplicates());
        assert forall|k: Seq<char>| #[trigger] self@.dom().contains(k) <==> keys.to_set().contains(k) by {
            if self@.dom().contains(k) {
                let i: int = choose|i: int| 0 <= i < s.len() && #[trigger] key_of(s[i]) == k;
                assert(keys[i] == k);
            }
            if keys.to_set().contains(k) {
                let i: int = choose|i: int| 0 <= i < keys.len() && keys[i] == k;
                assert(key_of(s[i]) == k);
            }
        }
        assert(self@.dom() =~= keys.to_set());
        keys.unique_seq_to_set();
    }

    /// Looks `name` up.
    pub fn get(&self, name: &str) -> (r: Option<&V>)
        ensures
            match r {
                Some(v) => self@.contains_key(name@) && self@[name@] == *v,
                None => !self@.contains_key(name@),
            },
    {
        proof {
            use_type_invariant(self);
        }
        match Self::index_of(&self.entries, name) {
            Some(i) => {
                proof {
                    lemma_entry_in_map(self.entries@, i as int);
                }
                Some(&self.entries[i].1)
            },
            None => None,
        }
    }

    /// Stores `value` under `name`, replacing and returning what was stored there.
    pub fn insert(&mut self, name: String, value: V) -> (r: Option<V>)
        ensures
            final(self)@ == old(self)@.insert(name@, value),
            match r {
                Some(v) => old(self)@.contains_key(name@) && old(self)@[name@] == v,
                None => !old(self)@.contains_key(name@),
            },
    {
        proof {
            use_type_invariant(&*self);
        }
        let mut entries: Vec<(String, V)> = Vec::new();
        std::mem::swap(&mut entries, &mut self.entries);
        let ghost old_s = entries@;
        let ghost k = name@;
        let r = match Self::index_of(&entries, name.as_str()) {
            Some(i) => {
                proof {
                    lemma_entry_in_map(old_s, i as int);
                }
                let (_, old_value) = entries.remove(i);
                entries.insert(i, (name, value));
                proof {
                    let s = entries@;
                    assert(s =~= old_s.update(i as int, (name, value)));
                    assert(distinct_names(s)) by {
                        assert forall|a: int, b: int|
                            0 <= a < s.len() && 0 <= b < s.len() && a != b implies #[trigger] key_of(s[a])
                            != #[trigger] key_of(s[b]) by {
                            if a != i && b != i {
                                assert(key_of(old_s[a]) != key_of(old_s[b]));
                            } else if a == i {
                                assert(key_of(old_s[a]) != key_of(old_s[b]));
                            } else {
                                assert(key_of(old_s[a]) != key_of(old_s[b]));
                            }
                        }
                    }
                    assert forall|q: Seq<char>| has_name(s, q) <==> has_name(old_s, q) by {
                        if has_name(s, q) {
                            let a: int = choose|a: int| 0 <= a < s.len() && #[trigger] key_of(s[a]) == q;
                            assert(key_of(old_s[a]) == q);
                        }
                        if has_name(old_s, q) {
                            let a: int = choose|a: int| 0 <= a < old_s.len() && #[trigger] key_of(old_s[a]) == q;
                            assert(key_of(s[a]) == q);
                        }
                    }
                    assert(entries_map(entries@) =~= entries_map(old_s).insert(k, value)) by {
                        assert forall|q: Seq<char>| #[trigger] entries_map(s).contains_key(q) implies entries_map(s)[q]
                            == entries_map(old_s).insert(k, value)[q] by {
                            let a: int = choose|a: int| 0 <= a < s.len() && #[trigger] key_of(s[a]) == q;
                            lemma_entry_in_map(s, a);
                            if a != i {
                                lemma_entry_in_map(old_s, a);
                            }
                        }
                    }
                }
                Some(old_value)
            },
            None => {
                entries.push((name, value));
                proof {
                    let s = entries@;
                    assert(s =~= old_s.push((name, value)));
                    assert(distinct_names(s)) by {
                        assert forall|a: int, b: int|
                            0 <= a < s.len() && 0 <= b < s.len() && a != b implies #[trigger] key_of(s[a])
                            != #[trigger] key_of(s[b]) by {
                            if a < old_s.len() && b < old_s.len() {
                                assert(key_of(old_s[a]) != key_of(old_s[b]));
                            } else if a < old_s.len() {
                                assert(key_of(s[a]) == key_of(old_s[a]));
                            } else {
                                assert(key_of(s[b]) == key_of(old_s[b]));
                            }
                        }
                    }
                    assert forall|q: Seq<char>| has_name(s, q) <==> (has_name(old_s, q) || q == k) by {
                        if has_name(s, q) {
                            let a: int = choose|a: int| 0 <= a < s.len() && #[trigger] key_of(s[a]) == q;
                            if a < old_s.len() {
                                assert(key_of(old_s[a]) == q);
                            }
                        }
                        if has_name(old_s, q) {
                            let a: int = choose|a: int| 0 <= a < old_s.len() && #[trigger] key_of(old_s[a]) == q;
                            assert(key_of(s[a]) == q);
                        }
                        if q == k {
                            assert(key_of(s[old_s.len() as int]) == q);
                        }
                    }
                    assert(entries_map(entries@) =~= entries_map(old_s).insert(k, value)) by {
                        assert forall|q: Seq<char>| #[trigger] entries_map(s).contains_key(q) implies entries_map(s)[q]
                            == entries_map(old_s).insert(k, value)[q] by {
                            let a: int = choose|a: int| 0 <= a < s.len() && #[trigger] key_of(s[a]) == q;
                            lemma_entry_in_map(s, a);
                            if a < old_s.len() {
                                lemma_entry_in_map(old_s, a);
                            }
                        }
                    }
                }
                None
            },
        };
        self.entries = entries;
        r
    }

    /// Removes what is stored under `name` and returns it.
    pub fn remove(&mut self, name: &str) -> (r: Option<V>)
        ensures
            final(self)@ == old(self)@.remove(name@),
            match r {
                Some(v) => old(self)@.contains_key(name@) && old(self)@[name@] == v,
                None => !old(self)@.contains_key(name@),
            },
    {
        proof {
            use_type_invariant(&*self);
        }
        let mut entries: Vec<(String, V)> = Vec::new();
        std::mem::swap(&mut entries, &mut self.entries);
        let ghost old_s = entries@;
        let ghost k = name@;
        let r = match Self::index_of(&entries, name) {
            Some(i) => {
                proof {
                    lemma_entry_in_map(old_s, i as int);
                }
                let (_, old_value) = entries.remove(i);
                proof {
                    let s = entries@;
                    assert(s =~= old_s.remove(i as int));
                    assert forall|a: int| 0 <= a < s.len() implies #[trigger] s[a] == old_s[if a < i { a } else { a + 1 }] by {}
                    assert(distinct_names(s)) by {
                        assert forall|a: int, b: int|
                            0 <= a < s.len() && 0 <= b < s.len() && a != b implies #[trigger] key_of(s[a])
                            != #[trigger] key_of(s[b]) by {
                            let a2: int = if a < i { a } else { a + 1 };
                            let b2: int = if b < i { b } else { b + 1 };
                            assert(s[a] == old_s[a2]);
                            assert(s[b] == old_s[b2]);
                            assert(key_of(old_s[a2]) != key_of(old_s[b2]));
                        }
                    }
                    assert forall|q: Seq<char>| has_name(s, q) <==> (has_name(old_s, q) && q != k) by {
                        if has_name(s, q) {
                            let a: int = choose|a: int| 0 <= a < s.len() && #[trigger] key_of(s[a]) == q;
                            let a2: int = if a < i { a } else { a + 1 };
                            assert(s[a] == old_s[a2]);
                            assert(key_of(old_s[a2]) == q);
                            assert(key_of(old_s[a2]) != key_of(old_s[i as int]));
                        }
                        if has_name(old_s, q) && q != k {
                            let a: int = choose|a: int| 0 <= a < old_s.len() && #[trigger] key_of(old_s[a]) == q;
                            assert(a != i);
                            let a2: int = if a < i { a } else { a - 1 };
                            assert(s[a2] == old_s[a]);
                            assert(key_of(s[a2]) == q);
                        }
                    }
                    assert(entries_map(entries@) =~= entries_map(old_s).remove(k)) by {
                        assert forall|q: Seq<char>| #[trigger] entries_map(s).contains_key(q) implies entries_map(s)[q]
                            == entries_map(old_s).remove(k)[q] by {
                            let a: int = choose|a: int| 0 <= a < s.len() && #[trigger] key_of(s[a]) == q;
                            let a2: int = if a < i { a } else { a + 1 };
                            assert(s[a] == old_s[a2]);
                            lemma_entry_in_map(s, a);
                            lemma_entry_in_map(old_s, a2);
                        }
                    }
                }
                Some(old_value)
            },
            None => {
                proof {
                    assert(entries_map(entries@) =~= old(self)@.remove(name@));
                }
                None
            },
        };
        self.entries = entries;
        r
    }

    /// The names stored, each once, in no particular order.
    pub fn keys(&self) -> (r: Vec<String>)
        ensures
            forall|i: int| 0 <= i < r.len() ==> self@.contains_key(#[trigger] r[i]@),
            forall|k: Seq<char>| #[trigger] self@.contains_key(k) ==> exists|i: int| 0 <= i < r.len() && r[i]@ == k,
            forall|i: int, j: int| 0 <= i < r.len() && 0 <= j < r.len() && i != j ==> r[i]@ != r[j]@,
    {
        proof {
            use_type_invariant(self);
        }
        let mut r: Vec<String> = Vec::new();
        let mut i: usize = 0;
        while i < self.entries.len()
            invariant
                distinct_names(self.entries@),
                i <= self.entries.len(),
                r.len() == i,
                forall|j: int| 0 <= j < i ==> #[trigger] r[j]@ == key_of(self.entries@[j]),
            decreases self.entries.len() - i,
        {
            r.push(self.entries[i].0.clone());
            i = i + 1;
        }
        proof {
            let s = self.entries@;
            assert forall|j: int| 0 <= j < r.len() implies self@.contains_key(#[trigger] r[j]@) by {
                lemma_entry_in_map(s, j);
            }
            assert forall|k: Seq<char>| #[trigger] self@.contains_key(k) implies exists|j: int| 0 <= j < r.len() && r[j]@ == k by {
                let j: int = choose|j: int| 0 <= j < s.len() && #[trigger] key_of(s[j]) == k;
                assert(r[j]@ == k);
            }
            assert forall|a: int, b: int| 0 <= a < r.len() && 0 <= b < r.len() && a != b implies r[a]@ != r[b]@ by {
                assert(key_of(s[a]) != key_of(s[b]));
            }
        }
        r
    }
}

impl NameMap<bool> {
    /// The names stored with `true`, each once, in no particular order.
    pub fn keys_set_true(&self) -> (r: Vec<String>)
        ensures
            forall|i: int| 0 <= i < r.len() ==> self@.contains_key(#[trigger] r[i]@) && self@[r[i]@],
            forall|k: Seq<char>| #[trigger] self@.contains_key(k) && self@[k] ==> exists|i: int| 0 <= i < r.len() && r[i]@ == k,
            forall|i: int, j: int| 0 <= i < r.len() && 0 <= j < r.len() && i != j ==> r[i]@ != r[j]@,
    {
        proof {
            use_type_invariant(self);
        }
        let mut r: Vec<String> = Vec::new();
        let ghost mut at: Seq<int> = Seq::empty();
        let mut i: usize = 0;
        while i < self.entries.len()
            invariant
                distinct_names(self.entries@),
                i <= self.entries.len(),
                at.len() == r.len(),
                forall|j: int| 0 <= j < r.len() ==> 0 <= #[trigger] at[j] < i && r[j]@ == key_of(self.entries@[at[j]])
                    && self.entries@[at[j]].1,
                forall|a: int, b: int| 0 <= a < b < r.len() ==> at[a] < at[b],
                forall|j: int| 0 <= j < i && #[trigger] self.entries@[j].1 ==> exists|a: int| 0 <= a < r.len() && at[a] == j,
            decreases self.entries.len() - i,
        {
            if self.entries[i].1 {
                r.push(self.entries[i].0.clone());
                proof {
                    let old_at = at;
                    at = at.push(i as int);
                    assert forall|j: int| 0 <= j < i + 1 && #[trigger] self.entries@[j].1 implies exists|a: int| 0 <= a < r.len() && at[a] == j by {
                        if j == i {
                            assert(at[r.len() - 1] == j);
                        } else {
                            let a: int = choose|a: int| 0 <= a < old_at.len() && old_at[a] == j;
                            assert(at[a] == j);
                        }
                    }
                }
            }
            i = i + 1;
        }
        proof {
            let s = self.entries@;
            assert forall|j: int| 0 <= j < r.len() implies self@.contains_key(#[trigger] r[j]@) && self@[r[j]@] by {
                lemma_entry_in_map(s, at[j]);
            }
            assert forall|k: Seq<char>| #[trigger] self@.contains_key(k) && self@[k] implies exists|j: int| 0 <= j < r.len() && r[j]@ == k by {
                let j: int = choose|j: int| 0 <= j < s.len() && #[trigger] key_of(s[j]) == k;
                lemma_entry_in_map(s, j);
                assert(s[j].1);
                let a: int = choose|a: int| 0 <= a < r.len() && at[a] == j;
                assert(r[a]@ == k);
            }
            assert forall|a: int, b: int| 0 <= a < r.len() && 0 <= b < r.len() && a != b implies r[a]@ != r[b]@ by {
                if a < b {
                    assert(at[a] < at[b]);
                } else {
                    assert(at[b] < at[a]);
                }
                assert(key_of(s[at[a]]) != key_of(s[at[b]]));
            }
        }
        r
    }
}

} // verus!