//! Operand symbols and the label table they are resolved against.
use vstd::prelude::*;

verus! {

/// An instruction operand: a literal address, or a reference to a label
/// together with a constant offset that is added once the label is known.
#[derive(Debug, PartialEq, Eq, Hash, Clone)]
pub enum Symbol {
    Resolved(u8),
    UnResolved(String, i8),
}

/// What a [`Symbol`] stands for, with the label's name as a sequence of characters.
pub enum SymbolView {
    Resolved(u8),
    UnResolved(Seq<char>, i8),
}

impl View for Symbol {
    type V = SymbolView;

    open spec fn view(&self) -> SymbolView {
        match self {
            Symbol::Resolved(addr) => SymbolView::Resolved(*addr),
            Symbol::UnResolved(name, offset) => SymbolView::UnResolved(name@, *offset),
        }
    }
}

impl Symbol {
    /// The address a resolved symbol holds.
    pub open spec fn spec_address(self) -> u8
        recommends
            self is Resolved,
    {
        self->Resolved_0
    }

    /// The literal address of a resolved symbol. An unresolved symbol has no
    /// address, so it is not accepted here.
    pub fn address(&self) -> (addr: u8)
        requires
            self is Resolved,
        ensures
            addr == self.spec_address(),
    {
        match self {
            Symbol::Resolved(addr) => *addr,
            Symbol::UnResolved(_, _) => vstd::pervasive::unreached(),
        }
    }

    /// Resolves the symbol against `lookup`. A resolved symbol stays as it is.
    /// A reference to a label that `lookup` holds becomes the label's address
    /// plus the offset, wrapped to eight bits. A reference to a label that
    /// `lookup` does not hold stays as it is, and `false` is returned.
    pub fn resolve(&mut self, lookup: &SymbolTable) -> (resolved: bool)
        ensures
            match old(self)@ {
                SymbolView::Resolved(_) => resolved && final(self)@ == old(self)@,
                SymbolView::UnResolved(name, offset) => if lookup@.contains_key(name) {
                    resolved && final(self)@ == SymbolView::Resolved(
                        spec_offset_address(lookup@[name], offset),
                    )
                } else {
                    !resolved && final(self)@ == old(self)@
                },
            },
    {
        let found: Option<u8> = match self {
            Symbol::Resolved(_) => {
                return true;
            },
            Symbol::UnResolved(name, offset) => match lookup.get(name.as_str()) {
                Some(base) => Some(offset_address(base, *offset)),
                None => None,
            },
        };
        match found {
            Some(addr) => {
                *self = Symbol::Resolved(addr);
                true
            },
            None => false,
        }
    }
}

/// The address `offset` bytes away from `base`, wrapped to eight bits.
pub open spec fn spec_offset_address(base: u8, offset: i8) -> u8 {
    ((base + offset) % 256) as u8
}

pub fn offset_address(base: u8, offset: i8) -> (addr: u8)
    ensures
        addr == spec_offset_address(base, offset),
{
    let sum: i16 = base as i16 + offset as i16;
    ((sum + 256) % 256) as u8
}

/// The map that a list of label definitions stands for. Where a name is
/// defined more than once, its last definition counts.
pub open spec fn spec_table(entries: Seq<(String, u8)>) -> Map<Seq<char>, u8>
    decreases entries.len(),
{
    if entries.len() == 0 {
        Map::empty()
    } else {
        spec_table(entries.drop_last()).insert(entries.last().0@, entries.last().1)
    }
}

/// The labels of a program, each with its address.
pub struct SymbolTable {
    entries: Vec<(String, u8)>,
}

impl View for SymbolTable {
    type V = Map<Seq<char>, u8>;

    closed spec fn view(&self) -> Map<Seq<char>, u8> {
        spec_table(self.entries@)
    }
}

impl SymbolTable {
    /// A table without labels.
    pub fn new() -> (table: SymbolTable)
        ensures
            table@ == Map::<Seq<char>, u8>::empty(),
    {
        SymbolTable { entries: Vec::new() }
    }

    /// Defines the label `name` at `address`. An earlier definition of the
    /// same name is replaced.
    pub fn insert(&mut self, name: &str, address: u8)
        ensures
            final(self)@ == old(self)@.insert(name@, address),
    {
        self.entries.push((name.to_owned(), address));
        assert(self.entries@.drop_last() =~= old(self).entries@);
    }

    /// The address of the label `name`, if the table holds it.
    pub fn get(&self, name: &str) -> (found: Option<u8>)
        ensures
            found == (if self@.contains_key(name@) {
                Some(self@[name@])
            } else {
                None
            }),
    {
        let wanted: String = name.to_owned();
        let mut i: usize = self.entries.len();
        assert(self.entries@.take(i as int) =~= self.entries@);
        while i > 0
            invariant
                i <= self.entries.len(),
                wanted@ == name@,
                spec_table(self.entries@).contains_key(name@) <==> spec_table(
                    self.entries@.take(i as int),
                ).contains_key(name@),
                spec_table(self.entries@).contains_key(name@) ==> spec_table(self.entries@)[name@]
                    == spec_table(self.entries@.take(i as int))[name@],
            decreases i,
        {
            i = i - 1;
            assert(self.entries@.take(i + 1).drop_last() =~= self.entries@.take(i as int));
            if self.entries[i].0 == wanted {
                return Some(self.entries[i].1);
            }
        }
        None
    }
}

} // verus!
