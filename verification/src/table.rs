use vstd::prelude::*;

verus! {

/// The names of a list of named entries, in order.
pub open spec fn entry_names<V>(entries: Seq<(String, V)>) -> Seq<Seq<char>> {
    entries.map_values(|e: (String, V)| e.0@)
}

/// `entries` lists the table `m` exactly: each name once, each entry's value
/// the one the table holds under its name, and every name of the table present.
pub open spec fn lists_table<V>(entries: Seq<(String, V)>, m: Map<Seq<char>, V>) -> bool {
    &&& entry_names(entries).no_duplicates()
    &&& forall|i: int|
        0 <= i < entries.len() ==> #[trigger] m.contains_key(entries[i].0@) && m[entries[i].0@]
            == entries[i].1
    &&& forall|k: Seq<char>| #[trigger] m.contains_key(k) ==> entry_names(entries).contains(k)
}

/// `names` lists the names of the table `m` exactly, each once.
pub open spec fn lists_names<V>(names: Seq<&str>, m: Map<Seq<char>, V>) -> bool {
    &&& names.map_values(|s: &str| s@).no_duplicates()
    &&& names.map_values(|s: &str| s@).to_set() == m.dom()
}

/// A table of values keyed by name, in which a name occurs at most once.
#[derive(Debug)]
pub struct NamedTable<V> {
    entries: Vec<(String, V)>,
}

impl<V> NamedTable<V> {
    /// The names of the entries, in order.
    closed spec fn names(self) -> Seq<Seq<char>> {
        entry_names(self.entries@)
    }

    #[verifier::type_invariant]
    closed spec fn names_unique(self) -> bool {
        self.names().no_duplicates()
    }
}

impl<V> View for NamedTable<V> {
    type V = Map<Seq<char>, V>;

    closed spec fn view(&self) -> Map<Seq<char>, V> {
        Map::new(
            |k: Seq<char>| self.names().contains(k),
            |k: Seq<char>| self.entries@[self.names().index_of(k)].1,
        )
    }
}

/// In a sequence without duplicates, the index of an element is where it stands.
proof fn lemma_index_of_unique(names: Seq<Seq<char>>, j: int)
    requires
        names.no_duplicates(),
        0 <= j < names.len(),
    ensures
        names.index_of(names[j]) == j,
{
    assert(names.contains(names[j]));
}

impl<V> NamedTable<V> {
    /// An empty table.
    pub fn new() -> (r: Self)
        ensures
            r@ == Map::<Seq<char>, V>::empty(),
    {
        let r = NamedTable { entries: Vec::new() };
        assert(r@ =~= Map::<Seq<char>, V>::empty());
        r
    }

    proof fn lemma_view_lists(&self)
        requires
            self.names().no_duplicates(),
        ensures
            lists_table(self.entries@, self@),
            self@.dom() == self.names().to_set(),
            self.names().len() == self.entries@.len(),
    {
        assert forall|i: int| 0 <= i < self.entries@.len() implies #[trigger] self@.contains_key(
            self.entries@[i].0@,
        ) && self@[self.entries@[i].0@] == self.entries@[i].1 by {
            assert(self.names()[i] == self.entries@[i].0@);
            lemma_index_of_unique(self.names(), i);
        }
        assert(self@.dom() =~= self.names().to_set());
    }

    /// A table holds finitely many names.
    pub proof fn lemma_finite(&self)
        ensures
            self@.dom().finite(),
    {
        broadcast use vstd::seq_lib::seq_to_set_is_finite;

        assert(self@.dom() =~= self.names().to_set());
    }

    /// Number of names in the table.
    pub fn len(&self) -> (r: usize)
        ensures
            r == self@.len(),
    {
        proof {
            use_type_invariant(self);
            self.lemma_view_lists();
            self.names().unique_seq_to_set();
        }
        self.entries.len()
    }

    /// Index of the entry named `name`, if there is one.
    fn find(&self, name: &str) -> (r: Option<usize>)
        ensures
            r is None <==> !self@.contains_key(name@),
            r matches Some(i) ==> i < self.entries@.len() && self.entries@[i as int].0@ == name@,
    {
        proof {
            use_type_invariant(self);
        }
        let key: String = name.to_owned();
        let n = self.entries.len();
        let mut i: usize = 0;
        while i < n
            invariant
                n == self.entries@.len(),
                key@ == name@,
                i <= n,
                forall|j: int| 0 <= j < i ==> self.names()[j] != name@,
            decreases n - i,
        {
            if self.entries[i].0 == key {
                assert(self.names()[i as int] == name@);
                assert(self.names().contains(name@));
                return Some(i);
            }
            assert(self.names()[i as int] == self.entries@[i as int].0@);
            i = i + 1;
        }
        None
    }

    /// Whether the table holds a value under `name`.
    pub fn contains_name(&self, name: &str) -> (r: bool)
        ensures
            r == self@.contains_key(name@),
    {
        self.find(name).is_some()
    }

    /// The value held under `name`, if any.
    pub fn get(&self, name: &str) -> (r: Option<&V>)
        ensures
            r is Some <==> self@.contains_key(name@),
            r matches Some(v) ==> *v == self@[name@],
    {
        proof {
            use_type_invariant(self);
            self.lemma_view_lists();
        }
        match self.find(name) {
            Some(i) => Some(&self.entries[i].1),
            None => None,
        }
    }

    /// Put `value` under `name`, replacing any value held there before.
    pub fn insert(&mut self, name: &str, value: V)
        ensures
            final(self)@ == old(self)@.insert(name@, value),
    {
        proof {
            use_type_invariant(&*self);
        }
        let ghost old_names = self.names();
        match self.find(name) {
            Some(i) => {
                let mut entries: Vec<(String, V)> = Vec::new();
                std::mem::swap(&mut entries, &mut self.entries);
                entries[i].1 = value;
                proof {
                    assert(entry_names(entries@) =~= old_names);
                }
                self.entries = entries;
                proof {
                    assert(self.names() =~= old_names);
                    lemma_index_of_unique(self.names(), i as int);
                    assert forall|k: Seq<char>| #[trigger] self.names().contains(k) && k != name@
                        implies self.names().index_of(k) != i by {}
                }
                assert(self@ =~= old(self)@.insert(name@, value));
            },
            None => {
                let key: String = name.to_owned();
                let mut entries: Vec<(String, V)> = Vec::new();
                std::mem::swap(&mut entries, &mut self.entries);
                entries.push((key, value));
                proof {
                    assert(entry_names(entries@) =~= old_names.push(name@));
                }
                self.entries = entries;
                proof {
                    assert(self.names() =~= old_names.push(name@));
                    let len = old_names.len() as int;
                    lemma_index_of_unique(self.names(), len);
                    assert forall|k: Seq<char>| #[trigger] old_names.contains(k) implies self.names().index_of(
                        k,
                    ) == old_names.index_of(k) by {
                        let j = old_names.index_of(k);
                        assert(self.names()[j] == old_names[j]);
                        lemma_index_of_unique(self.names(), j);
                    }
                    assert forall|k: Seq<char>| #[trigger] old(self)@.insert(name@, value).contains_key(k) implies self@.contains_key(k) by {
                        if k != name@ {
                            let j = old_names.index_of(k);
                            assert(self.names()[j] == old_names[j]);
                        }
                    }
                    assert forall|k: Seq<char>| #[trigger] self@.contains_key(k) implies old(self)@.insert(name@, value).contains_key(k) && self@[k] == old(self)@.insert(name@, value)[k] by {
                        if k != name@ {
                            assert(old_names.contains(k));
                        }
                    }
                }
                assert(self@ =~= old(self)@.insert(name@, value));
            },
        }
    }

    /// The entries of the table, each name once.
    pub fn entries(&self) -> (r: &[(String, V)])
        ensures
            lists_table(r@, self@),
    {
        proof {
            use_type_invariant(self);
            self.lemma_view_lists();
        }
        self.entries.as_slice()
    }

    /// All names in the table, each once.
    pub fn names_list(&self) -> (r: Vec<&str>)
        ensures
            lists_names(r@, self@),
    {
        proof {
            use_type_invariant(self);
            self.lemma_view_lists();
        }
        let mut r: Vec<&str> = Vec::new();
        let n = self.entries.len();
        let mut i: usize = 0;
        while i < n
            invariant
                n == self.entries@.len(),
                i <= n,
                r@.len() == i,
                forall|j: int| 0 <= j < i ==> #[trigger] r@[j]@ == self.names()[j],
                self.names().no_duplicates(),
            decreases n - i,
        {
            let ghost before = r@;
            let s: &str = self.entries[i].0.as_str();
            r.push(s);
            proof {
                assert(s@ == self.names()[i as int]);
                assert(r@ == before.push(s));
                assert(self.names()[i as int] == self.entries@[i as int].0@);
                assert(r@.map_values(|s: &str| s@) =~= self.names().subrange(0, i + 1));
            }
            i = i + 1;
        }
        proof {
            assert(r@.map_values(|s: &str| s@) =~= self.names());
            assert(self.names().to_set() =~= self@.dom());
        }
        r
    }
}

impl<V: Clone> Clone for NamedTable<V> {
    /// A table with the same names, each holding a clone of the value.
    fn clone(&self) -> (r: Self)
        ensures
            r@.dom() == self@.dom(),
            forall|k: Seq<char>| #[trigger] r@.contains_key(k) ==> cloned(self@[k], r@[k]),
    {
        proof {
            use_type_invariant(self);
        }
        let mut entries: Vec<(String, V)> = Vec::new();
        let n = self.entries.len();
        let mut i: usize = 0;
        while i < n
            invariant
                n == self.entries@.len(),
                i <= n,
                entries@.len() == i,
                forall|j: int|
                    0 <= j < i ==> #[trigger] entries@[j].0@ == self.entries@[j].0@ && cloned(
                        self.entries@[j].1,
                        entries@[j].1,
                    ),
            decreases n - i,
        {
            let name: String = self.entries[i].0.clone();
            let value: V = self.entries[i].1.clone();
            entries.push((name, value));
            i = i + 1;
        }
        assert(entry_names(entries@) =~= self.names());
        let r = NamedTable { entries };
        proof {
            assert forall|k: Seq<char>| #[trigger] r@.contains_key(k) implies cloned(self@[k], r@[k]) by {
                let j = r.names().index_of(k);
                assert(entries@[j].0@ == self.entries@[j].0@);
            }
            assert(r@.dom() =~= self@.dom());
        }
        r
    }
}

} // verus!
