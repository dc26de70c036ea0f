//! Named bindings with unique definition.

use vstd::hash_map::StringHashMap;
use vstd::prelude::*;

verus! {

/// Why a symbol table operation failed.
#[derive(Debug, PartialEq, Eq, Clone, Copy, Structural)]
pub enum SymbolError {
    /// The name is already bound.
    ReDefinition,
    /// The name is not bound.
    UnDefinition,
}

/// What defining `name` as `value` makes of `table`: the table with the new
/// binding, or, where the name is bound already, the table as it was and the
/// failure.
pub open spec fn defined<T>(table: Map<Seq<char>, T>, name: Seq<char>, value: T) -> (
    Map<Seq<char>, T>,
    Result<(), SymbolError>,
) {
    if table.contains_key(name) {
        (table, Err(SymbolError::ReDefinition))
    } else {
        (table.insert(name, value), Ok(()))
    }
}

/// What looking `name` up in `table` gives: the value bound to it, or the
/// failure where it is not bound.
pub open spec fn looked_up<T>(table: Map<Seq<char>, T>, name: Seq<char>) -> Result<T, SymbolError> {
    if table.contains_key(name) {
        Ok(table[name])
    } else {
        Err(SymbolError::UnDefinition)
    }
}

/// What defining the first `count` of `bindings` in turn makes of `table`,
/// stopping at the first that fails.
pub open spec fn defined_all<T>(
    table: Map<Seq<char>, T>,
    bindings: Seq<(Seq<char>, T)>,
    count: nat,
) -> (Map<Seq<char>, T>, Result<(), SymbolError>)
    decreases count,
{
    if count == 0 {
        (table, Ok(()))
    } else {
        let before = defined_all(table, bindings, (count - 1) as nat);
        if before.1 is Err {
            before
        } else {
            defined(before.0, bindings[count - 1].0, bindings[count - 1].1)
        }
    }
}

/// Once a definition has failed, the ones after it are not made.
pub proof fn lemma_defined_all_stops<T>(
    table: Map<Seq<char>, T>,
    bindings: Seq<(Seq<char>, T)>,
    from: nat,
    count: nat,
)
    requires
        from <= count,
        defined_all(table, bindings, from).1 is Err,
    ensures
        defined_all(table, bindings, count) == defined_all(table, bindings, from),
    decreases count - from,
{
    if from < count {
        lemma_defined_all_stops(table, bindings, from, (count - 1) as nat);
    }
}

/// The names and values of `bindings`, with each name by its characters.
pub open spec fn named<T>(bindings: Seq<(&str, T)>) -> Seq<(Seq<char>, T)> {
    Seq::new(bindings.len(), |i: int| (bindings[i].0@, bindings[i].1))
}

/// A second definition of a name fails and changes nothing: whatever the
/// first made of the table stays, and with it the value that `name` was
/// bound to.
pub proof fn law_redefinition<T>(table: Map<Seq<char>, T>, name: Seq<char>, first: T, second: T)
    ensures
        ({
            let once = defined(table, name, first);
            let twice = defined(once.0, name, second);
            &&& twice.1 == Err::<(), SymbolError>(SymbolError::ReDefinition)
            &&& twice.0 == once.0
            &&& once.1 is Ok ==> looked_up(twice.0, name) == Ok::<T, SymbolError>(first)
            &&& once.1 is Err ==> looked_up(twice.0, name) == looked_up(table, name)
        }),
{
}

/// Looking up a name that was never defined fails, whatever else the table
/// holds; looking up a defined name gives the value of its first definition.
pub proof fn law_lookup<T>(table: Map<Seq<char>, T>, name: Seq<char>, other: Seq<char>, value: T)
    ensures
        looked_up(Map::<Seq<char>, T>::empty(), name) == Err::<T, SymbolError>(
            SymbolError::UnDefinition,
        ),
        !table.contains_key(name) ==> looked_up(table, name) == Err::<T, SymbolError>(
            SymbolError::UnDefinition,
        ),
        !table.contains_key(name) && other != name ==> looked_up(
            defined(table, other, value).0,
            name,
        ) == Err::<T, SymbolError>(SymbolError::UnDefinition),
        !table.contains_key(name) ==> looked_up(defined(table, name, value).0, name) == Ok::<
            T,
            SymbolError,
        >(value),
{
}

/// A mapping from names to values in which a name, once bound, stays bound
/// to the same value.
#[verifier::reject_recursive_types(T)]
pub struct SymbolTable<T> {
    map: StringHashMap<T>,
}

impl<T> View for SymbolTable<T> {
    type V = Map<Seq<char>, T>;

    closed spec fn view(&self) -> Map<Seq<char>, T> {
        self.map@
    }
}

impl<T: Copy> SymbolTable<T> {
    /// An empty table.
    pub fn new() -> (table: Self)
        ensures
            table@ == Map::<Seq<char>, T>::empty(),
    {
        SymbolTable { map: StringHashMap::new() }
    }

    /// Binds `name` to `value`, unless `name` is already bound.
    pub fn define(&mut self, name: &str, value: T) -> (result: Result<(), SymbolError>)
        ensures
            (final(self)@, result) == defined(old(self)@, name@, value),
    {
        if self.map.contains_key(name) {
            return Err(SymbolError::ReDefinition);
        }
        self.map.insert(name.to_owned(), value);
        Ok(())
    }

    /// Binds each name of `bindings` to its value, in turn, up to the first
    /// that is bound already.
    pub fn define_all(&mut self, bindings: Vec<(&str, T)>) -> (result: Result<(), SymbolError>)
        ensures
            (final(self)@, result) == defined_all(
                old(self)@,
                named(bindings@),
                bindings@.len(),
            ),
    {
        let ghost start = self@;
        let ghost all = named(bindings@);
        let mut i: usize = 0;
        while i < bindings.len()
            invariant
                i <= bindings@.len(),
                all == named(bindings@),
                start == old(self)@,
                (self@, Ok::<(), SymbolError>(())) == defined_all(start, all, i as nat),
            decreases bindings@.len() - i,
        {
            let (name, value) = bindings[i];
            let ghost before = self@;
            assert(all[i as int] == (name@, value));
            match self.define(name, value) {
                Ok(()) => {},
                Err(error) => {
                    proof {
                        assert(defined_all(start, all, (i + 1) as nat) == defined(
                            before,
                            name@,
                            value,
                        ));
                        lemma_defined_all_stops(start, all, (i + 1) as nat, bindings@.len());
                    }
                    return Err(error);
                },
            }
            i += 1;
        }
        Ok(())
    }

    /// The value bound to `name`. The table stays as it is.
    pub fn get(&mut self, name: &str) -> (result: Result<T, SymbolError>)
        ensures
            result == looked_up(old(self)@, name@),
            final(self)@ == old(self)@,
    {
        match self.map.get(name) {
            Some(value) => Ok(*value),
            None => Err(SymbolError::UnDefinition),
        }
    }
}

} // verus!
