//! The colour tag of a board cell or of a piece.

use crate::text::{decimal, push_decimal};
use vstd::prelude::*;

verus! {

/// What a cell holds: nothing, or a block with an index into the palette.
#[derive(Clone, Copy, Debug, PartialEq, Eq, Structural)]
pub enum Colour {
    Empty,
    Value(usize),
}

impl Colour {
    /// How a colour is written: `empty`, or `#` and the palette index.
    pub open spec fn text(self) -> Seq<char> {
        match self {
            Colour::Empty => "empty"@,
            Colour::Value(v) => "#"@ + decimal(v as nat),
        }
    }

    /// The colour as text.
    pub fn to_string(&self) -> (s: String)
        ensures
            s@ == self.text(),
    {
        match self {
            Colour::Empty => "empty".to_owned(),
            Colour::Value(v) => {
                let mut s: String = "#".to_owned();
                push_decimal(&mut s, *v);
                s
            },
        }
    }
}

} // verus!
