//! Interned strings: a symbol is a small key, and the table that gave it
//! out holds the text.

use vstd::prelude::*;

verus! {

/// Handle of an interned string: a small key into a symbol table.
#[derive(Clone, Copy, Debug, PartialEq, Eq, Hash, Structural)]
pub struct Interned(pub u16);

/// The table of interned strings. It is handed to every operation that has
/// to know what a symbol stands for.
pub struct SymbolTable {
    names: Vec<Vec<u8>>,
}

impl View for SymbolTable {
    type V = Seq<Seq<u8>>;

    /// The interned texts, each at the place that its symbol names.
    closed spec fn view(&self) -> Seq<Seq<u8>> {
        Seq::new(self.names@.len(), |i: int| self.names@[i]@)
    }
}

impl SymbolTable {
    /// No text is held twice, and every place has a symbol.
    pub open spec fn spec_well_formed(self) -> bool {
        &&& self@.len() <= 0x1_0000
        &&& forall|i: int, j: int|
            0 <= i < self@.len() && 0 <= j < self@.len() && self@[i] == self@[j] ==> i == j
    }

    /// Whether the table gave this symbol out.
    pub open spec fn spec_knows(self, symbol: Interned) -> bool {
        (symbol.0 as int) < self@.len()
    }

    /// The text that a symbol of this table stands for.
    pub open spec fn spec_lookup(self, symbol: Interned) -> Seq<u8>
        recommends
            self.spec_knows(symbol),
    {
        self@[symbol.0 as int]
    }

    /// A table with no symbols.
    pub fn new() -> (table: Self)
        ensures
            table@.len() == 0,
            table.spec_well_formed(),
    {
        SymbolTable { names: Vec::new() }
    }

    /// Number of symbols given out.
    pub fn len(&self) -> (n: usize)
        ensures
            n == self@.len(),
    {
        self.names.len()
    }

    /// The text that a symbol stands for.
    pub fn lookup(&self, symbol: Interned) -> (text: &Vec<u8>)
        requires
            self.spec_knows(symbol),
        ensures
            text@ == self.spec_lookup(symbol),
    {
        &self.names[symbol.0 as usize]
    }

    /// The symbol of a text, if the table holds the text.
    pub fn find(&self, text: &[u8]) -> (found: Option<Interned>)
        requires
            self.spec_well_formed(),
        ensures
            match found {
                Some(symbol) => self.spec_knows(symbol) && self.spec_lookup(symbol) == text@,
                None => forall|i: int| 0 <= i < self@.len() ==> self@[i] != text@,
            },
    {
        let mut i: usize = 0;
        while i < self.names.len()
            invariant
                i <= self.names@.len(),
                self@.len() == self.names@.len(),
                self@.len() <= 0x1_0000,
                forall|j: int| 0 <= j < i ==> self@[j] != text@,
            decreases self.names@.len() - i,
        {
            if bytes_equal(self.names[i].as_slice(), text) {
                return Some(Interned(i as u16));
            }
            i = i + 1;
        }
        None
    }

    /// The symbol of a text: the one it already has, or a new one. A full
    /// table gives out no new symbol.
    pub fn intern(&mut self, text: &[u8]) -> (symbol: Option<Interned>)
        requires
            old(self).spec_well_formed(),
        ensures
            final(self).spec_well_formed(),
            old(self)@.len() <= final(self)@.len(),
            forall|i: int| 0 <= i < old(self)@.len() ==> final(self)@[i] == old(self)@[i],
            match symbol {
                Some(s) => final(self).spec_knows(s) && final(self).spec_lookup(s) == text@,
                None => *final(self) == *old(self) && old(self)@.len() == 0x1_0000,
            },
            (exists|i: int| 0 <= i < old(self)@.len() && old(self)@[i] == text@) ==> final(self)@
                == old(self)@,
            symbol is Some && (forall|i: int| 0 <= i < old(self)@.len() ==> old(self)@[i] != text@)
                ==> final(self)@ == old(self)@.push(text@) && symbol == Some(
                Interned(old(self)@.len() as u16),
            ),
            symbol is None ==> forall|i: int| 0 <= i < old(self)@.len() ==> old(self)@[i] != text@,
    {
        match self.find(text) {
            Some(symbol) => {
                return Some(symbol);
            },
            None => {},
        }
        let n: usize = self.names.len();
        if n >= 0x1_0000 {
            return None;
        }
        let mut copy: Vec<u8> = Vec::new();
        let mut i: usize = 0;
        while i < text.len()
            invariant
                i <= text@.len(),
                copy@ == text@.subrange(0, i as int),
            decreases text@.len() - i,
        {
            copy.push(text[i]);
            assert(copy@ =~= text@.subrange(0, i + 1));
            i = i + 1;
        }
        assert(copy@ =~= text@);
        self.names.push(copy);
        assert(final(self)@ =~= old(self)@.push(text@));
        Some(Interned(n as u16))
    }
}

/// Whether two texts hold the same bytes.
pub fn bytes_equal(a: &[u8], b: &[u8]) -> (r: bool)
    ensures
        r == (a@ == b@),
{
    if a.len() != b.len() {
        return false;
    }
    let mut i: usize = 0;
    while i < a.len()
        invariant
            a@.len() == b@.len(),
            i <= a@.len(),
            a@.subrange(0, i as int) == b@.subrange(0, i as int),
        decreases a@.len() - i,
    {
        if a[i] != b[i] {
            assert(a@[i as int] != b@[i as int]);
            return false;
        }
        assert(a@.subrange(0, i + 1) =~= a@.subrange(0, i as int).push(a@[i as int]));
        assert(b@.subrange(0, i + 1) =~= b@.subrange(0, i as int).push(b@[i as int]));
        i = i + 1;
    }
    assert(a@ =~= a@.subrange(0, a@.len() as int));
    assert(b@ =~= b@.subrange(0, b@.len() as int));
    true
}

} // verus!
