//! The symbol table: the variables of a program, in the order of their
//! declaration.

use crate::representations::Symbol;
use crate::text::str_equal;
use vstd::prelude::*;

verus! {

/// One variable of a symbol table: its name and what is known of it.
pub struct Binding {
    pub name: Seq<char>,
    pub symbol: Symbol,
}

/// Whether `i` is the first place in `table` that holds `name`.
pub open spec fn first_match(table: Seq<Binding>, name: Seq<char>, i: int) -> bool {
    &&& 0 <= i < table.len()
    &&& table[i].name == name
    &&& forall|j: int| 0 <= j < i ==> (#[trigger] table[j]).name != name
}

/// The first place in `table` that holds `name`, if there is one.
pub open spec fn position(table: Seq<Binding>, name: Seq<char>) -> Option<int> {
    if exists|i: int| first_match(table, name, i) {
        Some(choose|i: int| first_match(table, name, i))
    } else {
        None
    }
}

/// What `table` knows of the variable `name`.
pub open spec fn lookup(table: Seq<Binding>, name: Seq<char>) -> Option<Symbol> {
    match position(table, name) {
        Some(i) => Some(table[i].symbol),
        None => None,
    }
}

/// `table` with `name` bound to `symbol`: in the place that `name` already
/// has, or else at the end.
pub open spec fn bind(table: Seq<Binding>, name: Seq<char>, symbol: Symbol) -> Seq<Binding> {
    match position(table, name) {
        Some(i) => table.update(i, Binding { name, symbol }),
        None => table.push(Binding { name, symbol }),
    }
}

/// Whether no name occurs twice in `table`.
pub open spec fn distinct_names(table: Seq<Binding>) -> bool {
    forall|i: int, j: int|
        0 <= i < j < table.len() ==> (#[trigger] table[i]).name != (#[trigger] table[j]).name
}

/// A first match is the position of its name.
pub proof fn lemma_position_found(table: Seq<Binding>, name: Seq<char>, i: int)
    requires
        first_match(table, name, i),
    ensures
        position(table, name) == Some(i),
{
}

/// A position is a first match, and a name without one is nowhere in the table.
pub proof fn lemma_position_sound(table: Seq<Binding>, name: Seq<char>)
    ensures
        position(table, name) matches Some(i) ==> first_match(table, name, i),
        position(table, name) is None ==> forall|j: int|
            0 <= j < table.len() ==> (#[trigger] table[j]).name != name,
{
    if position(table, name) is None {
        assert forall|j: int| 0 <= j < table.len() implies (#[trigger] table[j]).name
            != name by {
            if table[j].name == name {
                lemma_some_match_has_first(table, name, j);
            }
        }
    }
}

proof fn lemma_some_match_has_first(table: Seq<Binding>, name: Seq<char>, j: int)
    requires
        0 <= j < table.len(),
        table[j].name == name,
    ensures
        exists|i: int| first_match(table, name, i),
    decreases j,
{
    if forall|k: int| 0 <= k < j ==> (#[trigger] table[k]).name != name {
        assert(first_match(table, name, j));
    } else {
        let k = choose|k: int| 0 <= k < j && (#[trigger] table[k]).name == name;
        lemma_some_match_has_first(table, name, k);
    }
}

/// Binding a name makes it known, leaves every other name as it was, and
/// keeps the names distinct.
pub proof fn lemma_bind(table: Seq<Binding>, name: Seq<char>, symbol: Symbol, other: Seq<char>)
    ensures
        lookup(bind(table, name, symbol), name) == Some(symbol),
        other != name ==> lookup(bind(table, name, symbol), other) == lookup(table, other),
        distinct_names(table) ==> distinct_names(bind(table, name, symbol)),
        bind(table, name, symbol).len() >= table.len(),
{
    let after = bind(table, name, symbol);
    lemma_position_sound(table, name);
    lemma_position_sound(table, other);
    if position(table, name) is None {
        assert(first_match(after, name, table.len() as int));
    }
    if other != name && position(table, other) is Some {
        assert(first_match(after, other, position(table, other)->0));
    }
}

#[derive(Debug)]
struct Entry {
    name: String,
    symbol: Symbol,
}

impl View for Entry {
    type V = Binding;

    closed spec fn view(&self) -> Binding {
        Binding { name: self.name@, symbol: self.symbol }
    }
}

/// The variables of a program, in the order of their declaration.
#[derive(Debug)]
pub struct SymbolTable {
    entries: Vec<Entry>,
}

impl View for SymbolTable {
    type V = Seq<Binding>;

    closed spec fn view(&self) -> Seq<Binding> {
        self.entries@.map_values(|e: Entry| e@)
    }
}

impl SymbolTable {
    /// An empty table.
    pub fn new() -> (table: Self)
        ensures
            table@ == Seq::<Binding>::empty(),
    {
        let table = SymbolTable { entries: Vec::new() };
        table
    }

    /// The number of variables.
    pub fn len(&self) -> (n: usize)
        ensures
            n == self@.len(),
    {
        self.entries.len()
    }

    /// The place of the variable `name`, if the table holds it.
    pub fn find(&self, name: &str) -> (r: Option<usize>)
        ensures
            match r {
                Some(i) => position(self@, name@) == Some(i as int),
                None => position(self@, name@) is None,
            },
    {
        let mut i: usize = 0;
        while i < self.entries.len()
            invariant
                0 <= i <= self.entries@.len(),
                forall|j: int| 0 <= j < i ==> (#[trigger] self@[j]).name != name@,
            decreases self.entries@.len() - i,
        {
            if str_equal(self.entries[i].name.as_str(), name) {
                proof {
                    lemma_position_found(self@, name@, i as int);
                }
                return Some(i);
            }
            i += 1;
        }
        None
    }

    /// What the table knows of the variable `name`.
    pub fn get(&self, name: &str) -> (r: Option<&Symbol>)
        ensures
            match r {
                Some(symbol) => lookup(self@, name@) == Some(*symbol),
                None => lookup(self@, name@) is None,
            },
    {
        match self.find(name) {
            Some(i) => {
                Some(&self.entries[i].symbol)
            },
            None => None,
        }
    }

    /// Binds `name` to `symbol`: in the place that `name` already has, or
    /// else at the end.
    pub fn insert(&mut self, name: String, symbol: Symbol)
        ensures
            final(self)@ == bind(old(self)@, name@, symbol),
    {
        let place = self.find(name.as_str());
        match place {
            Some(i) => {
                self.entries.set(i, Entry { name, symbol });
            },
            None => {
                self.entries.push(Entry { name, symbol });
            },
        }
    }

    /// What the table knows of its `i`-th variable.
    pub fn symbol_at(&self, i: usize) -> (symbol: &Symbol)
        requires
            i < self@.len(),
        ensures
            *symbol == self@[i as int].symbol,
    {
        &self.entries[i].symbol
    }

    /// The name of the `i`-th variable.
    pub fn name_at(&self, i: usize) -> (name: &str)
        requires
            i < self@.len(),
        ensures
            name@ == self@[i as int].name,
    {
        self.entries[i].name.as_str()
    }

    /// Gives the `i`-th variable the stack offset `offset`.
    pub(crate) fn set_offset(&mut self, i: usize, offset: u64)
        requires
            i < old(self)@.len(),
        ensures
            final(self)@ == old(self)@.update(
                i as int,
                Binding {
                    name: old(self)@[i as int].name,
                    symbol: Symbol { stack_offset: Some(offset), ..old(self)@[i as int].symbol },
                },
            ),
    {
        let name = self.entries[i].name.clone();
        let symbol = Symbol {
            stack_offset: Some(offset),
            _type: self.entries[i].symbol._type.clone(),
            mutable: self.entries[i].symbol.mutable,
            init_line: self.entries[i].symbol.init_line,
            last_ref: self.entries[i].symbol.last_ref,
        };
        self.entries.set(i, Entry { name, symbol });
    }
}

} // verus!
