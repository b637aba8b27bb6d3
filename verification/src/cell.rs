//! The value written into one grid cell: a character plus a style attribute.

use vstd::prelude::*;

verus! {

/// An opaque style token carried through unchanged by every drawing
/// operation. The canvas core never interprets it; it only needs a
/// default (neutral) value.
#[derive(Clone, Copy, Debug, PartialEq, Eq, Structural)]
pub struct Attr {
    pub style: u64,
}

/// The neutral attribute used when no explicit attribute is given.
pub open spec fn default_attr() -> Attr {
    Attr { style: 0 }
}

impl Default for Attr {
    fn default() -> (r: Self)
        ensures
            r == default_attr(),
    {
        Attr { style: 0 }
    }
}

/// One character plus the attribute it is displayed with.
#[derive(Clone, Copy, Debug, PartialEq, Eq, Structural)]
pub struct Cell {
    pub ch: char,
    pub attr: Attr,
}

/// The cell a cleared surface holds everywhere: a blank character with the
/// neutral attribute.
pub open spec fn empty_cell() -> Cell {
    Cell { ch: ' ', attr: default_attr() }
}

impl Cell {
    /// The empty cell used for clearing: a space with the default attribute.
    pub fn empty() -> (r: Self)
        ensures
            r == empty_cell(),
    {
        Cell { ch: ' ', attr: Attr { style: 0 } }
    }
}

impl Default for Cell {
    fn default() -> (r: Self)
        ensures
            r == empty_cell(),
    {
        Cell { ch: ' ', attr: Attr { style: 0 } }
    }
}

} // verus!
