use vstd::prelude::*;

verus! {

/// One of the two complementary outcome tokens of a market.
#[derive(Debug, Clone, Copy, PartialEq, Eq, Hash, Structural)]
pub enum Side {
    Yes,
    No,
}

impl Side {
    pub open spec fn spec_opposite(self) -> Side {
        match self {
            Side::Yes => Side::No,
            Side::No => Side::Yes,
        }
    }

    /// The other side.
    pub fn opposite(&self) -> (r: Side)
        ensures
            r == self.spec_opposite(),
            r != *self,
    {
        match self {
            Side::Yes => Side::No,
            Side::No => Side::Yes,
        }
    }
}

} // verus!
