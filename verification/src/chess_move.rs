use vstd::prelude::*;

use crate::piece::PieceType;
use crate::square::SQ;

verus! {

/// A move: origin and destination squares, plus the piece a pawn promotes to.
#[derive(Debug, Clone, Copy, PartialEq, Eq, Structural)]
pub struct ChessMove {
    pub from: SQ,
    pub to: SQ,
    pub promotion: Option<PieceType>,
}

impl ChessMove {
    pub fn new(from: SQ, to: SQ, promotion: Option<PieceType>) -> (r: Self)
        ensures
            r.from == from,
            r.to == to,
            r.promotion == promotion,
    {
        ChessMove { from, to, promotion }
    }

    pub fn from_sq(self) -> (r: SQ)
        ensures
            r == self.from,
    {
        self.from
    }

    pub fn to_sq(self) -> (r: SQ)
        ensures
            r == self.to,
    {
        self.to
    }

    pub fn promotion(self) -> (r: Option<PieceType>)
        ensures
            r == self.promotion,
    {
        self.promotion
    }
}

} // verus!
