//! The machine's two tables, both hash maps of the `hashbrown` crate: the
//! globals by name, and the execution counts by code offset.
use vstd::prelude::*;
use crate::shared::value::Value;
use crate::shared::value::ValueView;

verus! {

/// The global variables: a `hashbrown::HashMap` from name to value.
#[verifier::external_body]
pub struct GlobalTable {
    table: hashbrown::HashMap<String, Value>,
}

/// What a [`GlobalTable`] holds: for each name in it, the view of its value.
pub uninterp spec fn global_bindings(table: GlobalTable) -> Map<Seq<char>, ValueView>;

impl View for GlobalTable {
    type V = Map<Seq<char>, ValueView>;

    open spec fn view(&self) -> Map<Seq<char>, ValueView> {
        global_bindings(*self)
    }
}

impl GlobalTable {
    /// `hashbrown::HashMap::new`: a map that holds nothing.
    #[verifier::external_body]
    pub(crate) fn new() -> (table: GlobalTable)
        ensures
            global_bindings(table) == (Map::<Seq<char>, ValueView>::empty()),
    {
        GlobalTable { table: hashbrown::HashMap::new() }
    }

    /// `hashbrown::HashMap::insert`: afterwards the map holds `value` under
    /// `name`, in place of what it held there, and everything else as before.
    #[verifier::external_body]
    pub(crate) fn insert(&mut self, name: String, value: Value)
        ensures
            global_bindings(*final(self)) == global_bindings(*old(self)).insert(name@, value@),
    {
        self.table.insert(name, value);
    }

    /// `hashbrown::HashMap::get`: the value that the map holds under `name`,
    /// if it holds one.
    #[verifier::external_body]
    pub(crate) fn get(&self, name: &str) -> (found: Option<&Value>)
        ensures
            found is Some == global_bindings(*self).contains_key(name@),
            found matches Some(value) ==> value@ == global_bindings(*self)[name@],
    {
        self.table.get(name)
    }

    /// `hashbrown::HashMap::clear`: afterwards the map holds nothing.
    #[verifier::external_body]
    pub(crate) fn clear(&mut self)
        ensures
            global_bindings(*final(self)) == (Map::<Seq<char>, ValueView>::empty()),
    {
        self.table.clear();
    }
}

/// The execution counts: a `hashbrown::HashMap` from code offset to the
/// number of times the instruction there was dispatched.
#[verifier::external_body]
pub struct CountTable {
    table: hashbrown::HashMap<usize, u64>,
}

/// What a [`CountTable`] holds.
pub uninterp spec fn count_entries(table: CountTable) -> Map<usize, u64>;

impl View for CountTable {
    type V = Map<usize, u64>;

    open spec fn view(&self) -> Map<usize, u64> {
        count_entries(*self)
    }
}

impl CountTable {
    /// `hashbrown::HashMap::new`: a map that holds nothing.
    #[verifier::external_body]
    pub(crate) fn new() -> (table: CountTable)
        ensures
            count_entries(table) == (Map::<usize, u64>::empty()),
    {
        CountTable { table: hashbrown::HashMap::new() }
    }

    /// `hashbrown::HashMap::insert`: afterwards the map holds `count` under
    /// `offset`, and everything else as before.
    #[verifier::external_body]
    pub(crate) fn insert(&mut self, offset: usize, count: u64)
        ensures
            count_entries(*final(self)) == count_entries(*old(self)).insert(offset, count),
    {
        self.table.insert(offset, count);
    }

    /// `hashbrown::HashMap::get`: the count that the map holds under
    /// `offset`, if it holds one.
    #[verifier::external_body]
    pub(crate) fn get(&self, offset: usize) -> (found: Option<&u64>)
        ensures
            found is Some == count_entries(*self).contains_key(offset),
            found matches Some(count) ==> *count == count_entries(*self)[offset],
    {
        self.table.get(&offset)
    }

    /// `hashbrown::HashMap::clear`: afterwards the map holds nothing.
    #[verifier::external_body]
    pub(crate) fn clear(&mut self)
        ensures
            count_entries(*final(self)) == (Map::<usize, u64>::empty()),
    {
        self.table.clear();
    }

    /// `hashbrown::HashMap::iter`: every pair that the map holds, each once,
    /// in an order that is not fixed.
    #[verifier::external_body]
    pub(crate) fn entries(&self) -> (pairs: Vec<(usize, u64)>)
        ensures
            pairs@.no_duplicates(),
            forall|offset: usize, count: u64|
                pairs@.contains((offset, count)) <==> (count_entries(*self).contains_key(offset)
                    && count_entries(*self)[offset] == count),
    {
        self.table.iter().map(|(offset, count)| (*offset, *count)).collect()
    }
}

} // verus!
