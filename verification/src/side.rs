use vstd::prelude::*;

verus! {

/// The side of the book a level rests on.
#[derive(Debug, Clone, Copy, PartialEq, Eq, Structural, Hash)]
pub enum Side {
    Bid,
    Ask,
}

impl Side {
    pub open spec fn opposite_spec(self) -> Side {
        match self {
            Side::Bid => Side::Ask,
            Side::Ask => Side::Bid,
        }
    }

    /// The other side.
    pub fn opposite(self) -> (s: Side)
        ensures
            s == self.opposite_spec(),
            s != self,
    {
        match self {
            Side::Bid => Side::Ask,
            Side::Ask => Side::Bid,
        }
    }

    /// Taking the opposite side twice gives the side back.
    pub proof fn lemma_opposite_involutive(s: Side)
        ensures
            s.opposite_spec().opposite_spec() == s,
    {
    }
}

} // verus!
