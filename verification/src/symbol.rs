//! The instruments that are synchronised and tested.

use vstd::prelude::*;

verus! {

/// A traded instrument as the configuration names it.
#[derive(Debug, PartialEq, Eq)]
pub struct Symbol {
    pub code: String,
    pub name: String,
}

impl Symbol {
    pub fn new(code: String, name: String) -> (s: Symbol)
        ensures
            s.code == code,
            s.name == name,
    {
        Symbol { code, name }
    }

    /// A copy of the symbol, equal to it in code and name.
    pub fn duplicate(&self) -> (s: Symbol)
        ensures
            s == *self,
    {
        Symbol { code: self.code.clone(), name: self.name.clone() }
    }
}

/// A copy of `symbols`, equal to it symbol by symbol.
pub fn duplicate_symbols(symbols: &Vec<Symbol>) -> (r: Vec<Symbol>)
    ensures
        r@ == symbols@,
{
    let mut r: Vec<Symbol> = Vec::new();
    let mut i: usize = 0;
    while i < symbols.len()
        invariant
            i <= symbols.len(),
            r@ == symbols@.take(i as int),
        decreases symbols.len() - i,
    {
        r.push(symbols[i].duplicate());
        assert(r@ =~= symbols@.take(i as int + 1));
        i += 1;
    }
    assert(symbols@.take(i as int) =~= symbols@);
    r
}

} // verus!
