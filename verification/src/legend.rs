use vstd::prelude::*;

use crate::table::{entry_names, lists_names, lists_table, NamedTable};

verus! {

/// Decodes map symbols and colors for human-readable legends.
#[derive(Debug)]
pub struct MapLegend {
    entries: NamedTable<String>,
}

impl View for MapLegend {
    type V = Map<Seq<char>, Seq<char>>;

    /// Each defined symbol and the meaning it was last given.
    closed spec fn view(&self) -> Map<Seq<char>, Seq<char>> {
        self.entries@.map_values(|m: String| m@)
    }
}

impl MapLegend {
    /// A legend with no symbols.
    pub fn new() -> (r: Self)
        ensures
            r@ == Map::<Seq<char>, Seq<char>>::empty(),
    {
        let r = MapLegend { entries: NamedTable::new() };
        assert(r@ =~= Map::<Seq<char>, Seq<char>>::empty());
        r
    }

    /// Register a symbol and its meaning, replacing any earlier meaning.
    pub fn define(&mut self, symbol: &str, meaning: &str)
        ensures
            final(self)@ == old(self)@.insert(symbol@, meaning@),
    {
        let m: String = meaning.to_owned();
        self.entries.insert(symbol, m);
        assert(self@ =~= old(self)@.insert(symbol@, meaning@));
    }

    /// Look up what a symbol means.
    pub fn lookup(&self, symbol: &str) -> (r: Option<&str>)
        ensures
            r is Some <==> self@.contains_key(symbol@),
            r matches Some(m) ==> m@ == self@[symbol@],
    {
        match self.entries.get(symbol) {
            Some(m) => Some(m.as_str()),
            None => None,
        }
    }

    /// All defined symbols, each once.
    pub fn symbols(&self) -> (r: Vec<&str>)
        ensures
            lists_names(r@, self@),
    {
        let r = self.entries.names_list();
        assert(self@.dom() =~= self.entries@.dom());
        r
    }

    /// Number of defined symbols.
    pub fn entry_count(&self) -> (r: usize)
        ensures
            r == self@.len(),
    {
        assert(self@.dom() =~= self.entries@.dom());
        self.entries.len()
    }
}

impl Clone for MapLegend {
    /// A legend with the same symbols and meanings.
    fn clone(&self) -> (r: Self)
        ensures
            r@ == self@,
    {
        let r = MapLegend { entries: self.entries.clone() };
        assert(r@ =~= self@);
        r
    }
}

impl PartialEq for MapLegend {
    /// Two legends are equal when they define the same symbols with the
    /// same meanings, in whatever order the symbols were defined.
    fn eq(&self, other: &Self) -> (r: bool) {
        if self.entry_count() != other.entry_count() {
            return false;
        }
        let entries = self.entries.entries();
        let n = entries.len();
        let mut i: usize = 0;
        while i < n
            invariant
                n == entries@.len(),
                i <= n,
                lists_table(entries@, self.entries@),
                forall|j: int|
                    0 <= j < i ==> #[trigger] other@.contains_key(entries@[j].0@) && other@[entries@[j].0@]
                        == entries@[j].1@,
            decreases n - i,
        {
            proof {
                assert(self.entries@.contains_key(entries@[i as int].0@));
            }
            match other.entries.get(entries[i].0.as_str()) {
                Some(m) => {
                    if !(*m == entries[i].1) {
                        assert(self@[entries@[i as int].0@] == entries@[i as int].1@);
                        assert(self@ != other@);
                        return false;
                    }
                    assert(m@ == entries@[i as int].1@);
                    assert(other.entries@.contains_key(entries@[i as int].0@));
                    assert(other@.contains_key(entries@[i as int].0@));
                    assert(other@[entries@[i as int].0@] == m@);
                },
                None => {
                    assert(self@.contains_key(entries@[i as int].0@));
                    return false;
                },
            }
            assert forall|j: int| 0 <= j < i + 1 implies #[trigger] other@.contains_key(entries@[j].0@) && other@[entries@[j].0@]
                        == entries@[j].1@ by {}
            i = i + 1;
        }
        proof {
            self.lemma_finite();
            other.lemma_finite();
            assert forall|k: Seq<char>| #[trigger] self@.contains_key(k) implies other@.contains_key(k) && other@[k] == self@[k] by {
                assert(entry_names(entries@).contains(k));
                let j = choose|j: int| 0 <= j < entry_names(entries@).len() && entry_names(entries@)[j] == k;
                assert(entries@[j].0@ == k);
                assert(self.entries@.contains_key(entries@[j].0@));
            }
            vstd::set_lib::lemma_subset_equality(self@.dom(), other@.dom());
            assert(self@ =~= other@);
        }
        true
    }
}

impl vstd::std_specs::cmp::PartialEqSpecImpl for MapLegend {
    open spec fn obeys_eq_spec() -> bool {
        true
    }

    open spec fn eq_spec(&self, other: &Self) -> bool {
        self@ == other@
    }
}

impl Default for MapLegend {
    fn default() -> (r: Self)
        ensures
            r@ == Map::<Seq<char>, Seq<char>>::empty(),
    {
        Self::new()
    }
}

impl MapLegend {
    /// A legend defines finitely many symbols.
    pub proof fn lemma_finite(&self)
        ensures
            self@.dom().finite(),
    {
        self.entries.lemma_finite();
        assert(self@.dom() =~= self.entries@.dom());
    }
}

/// Defining a symbol that is not yet in the legend adds one entry;
/// redefining one leaves the number of entries as it was.
pub proof fn lemma_define_count(legend: &MapLegend, symbol: Seq<char>, meaning: Seq<char>)
    ensures
        legend@.insert(symbol, meaning).len() == legend@.len() + if legend@.contains_key(symbol) {
            0int
        } else {
            1int
        },
{
    legend.lemma_finite();
    if legend@.contains_key(symbol) {
        assert(legend@.insert(symbol, meaning).dom() =~= legend@.dom());
    } else {
        assert(legend@.insert(symbol, meaning).dom() =~= legend@.dom().insert(symbol));
    }
}

/// Reading a symbol back after defining it gives the meaning just given,
/// whatever was defined before; the other symbols keep their meanings.
pub proof fn lemma_define_then_lookup(
    legend: &MapLegend,
    symbol: Seq<char>,
    meaning: Seq<char>,
    other: Seq<char>,
)
    requires
        other != symbol,
    ensures
        legend@.insert(symbol, meaning).contains_key(symbol),
        legend@.insert(symbol, meaning)[symbol] == meaning,
        legend@.insert(symbol, meaning).contains_key(other) == legend@.contains_key(other),
        legend@.contains_key(other) ==> legend@.insert(symbol, meaning)[other] == legend@[other],
{
}

} // verus!
