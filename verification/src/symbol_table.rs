//! The compiler's name-to-slot resolution table.
//!
//! Every definition appends a fresh entry with the next slot index, even
//! when the name was already defined; resolution returns the slot of the
//! most recent definition. The table only grows.

use vstd::prelude::*;

verus! {

/// The scope a binding lives in. One scope kind exists: the global scope.
#[derive(Debug, Clone)]
pub struct SymbolScope(pub String);

/// One table entry: a name bound to a slot index within a scope.
#[derive(Debug, Clone)]
pub struct Symbol {
    pub name: String,
    pub scope: SymbolScope,
    pub idx: u16,
}

impl Symbol {
    /// A fresh entry binding `name` to slot `idx` in `scope`.
    pub fn new(name: &str, scope: &SymbolScope, idx: u16) -> (r: Self)
        ensures
            r.name@ == name@,
            r.scope.0@ == scope.0@,
            r.idx == idx,
    {
        Self { name: name.to_owned(), scope: SymbolScope(scope.0.clone()), idx }
    }
}

/// The slot that `name` resolves to in `entries`: the slot of the latest
/// entry carrying the name, or nothing if no entry carries it.
pub open spec fn resolve_spec(entries: Seq<(Seq<char>, u16)>, name: Seq<char>) -> Option<u16>
    decreases entries.len(),
{
    if entries.len() == 0 {
        None
    } else if entries.last().0 == name {
        Some(entries.last().1)
    } else {
        resolve_spec(entries.drop_last(), name)
    }
}

/// The name-to-slot table: entries in definition order.
#[derive(Debug)]
pub struct SymbolTable {
    store: Vec<Symbol>,
    num_defs: u16,
}

impl View for SymbolTable {
    type V = Seq<(Seq<char>, u16)>;

    closed spec fn view(&self) -> Seq<(Seq<char>, u16)> {
        Seq::new(self.store@.len(), |i: int| (self.store@[i].name@, self.store@[i].idx))
    }
}

impl SymbolTable {
    /// Entries are numbered in definition order, starting at 0.
    pub closed spec fn wf(&self) -> bool {
        &&& self.num_defs == self.store@.len()
        &&& forall|i: int| 0 <= i < self.store@.len() ==> (#[trigger] self.store@[i].idx) == i
    }

    /// An empty table.
    pub fn new() -> (r: Self)
        ensures
            r.wf(),
            r@ =~= Seq::<(Seq<char>, u16)>::empty(),
    {
        Self { store: Vec::new(), num_defs: 0 }
    }

    /// How many definitions the table holds.
    pub fn num_definitions(&self) -> (r: u16)
        requires
            self.wf(),
        ensures
            r == self@.len(),
    {
        self.num_defs
    }

    /// Binds `name` to the next unused slot index and returns that index.
    /// A name that was already defined gets a fresh entry and a fresh slot;
    /// the old entry stays but no longer wins resolution.
    pub fn define(&mut self, name: &str) -> (slot: u16)
        requires
            old(self).wf(),
            old(self)@.len() < u16::MAX,
        ensures
            final(self).wf(),
            slot == old(self)@.len(),
            final(self)@ =~= old(self)@.push((name@, slot)),
            resolve_spec(final(self)@, name@) == Some(slot),
            forall|other: Seq<char>| other != name@
                ==> #[trigger] resolve_spec(final(self)@, other) == resolve_spec(old(self)@, other),
    {
        let num_defs = self.num_defs;
        let scope = SymbolScope("Global".to_string());
        self.store.push(Symbol::new(name, &scope, num_defs));
        self.num_defs = num_defs + 1;
        proof {
            assert(final(self)@ =~= old(self)@.push((name@, num_defs)));
            assert(final(self)@.drop_last() =~= old(self)@);
        }
        num_defs
    }

    /// The slot of the most recent definition of `name`, if any.
    pub fn resolve(&self, name: &str) -> (r: Option<u16>)
        ensures
            r == resolve_spec(self@, name@),
    {
        let needle: String = name.to_owned();
        let mut i: usize = self.store.len();
        proof {
            assert(self@.subrange(0, self.store@.len() as int) =~= self@);
        }
        while i > 0
            invariant
                i <= self.store@.len(),
                needle@ == name@,
                resolve_spec(self@, name@) == resolve_spec(self@.subrange(0, i as int), name@),
            decreases i,
        {
            i -= 1;
            if self.store[i].name.eq(&needle) {
                proof {
                    assert(self@.subrange(0, i + 1).last() == (name@, self.store@[i as int].idx));
                }
                return Some(self.store[i].idx);
            }
            proof {
                assert(self@.subrange(0, i + 1).drop_last() =~= self@.subrange(0, i as int));
                assert(self@.subrange(0, i + 1).last().0 != name@);
            }
        }
        proof {
            assert(self@.subrange(0, 0) =~= Seq::<(Seq<char>, u16)>::empty());
        }
        None
    }
}

} // verus!
