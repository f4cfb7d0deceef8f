use vstd::prelude::*;

verus! {

/// Which castling options a side still has.
#[derive(Debug, Clone, Copy, PartialEq, Eq, Structural)]
pub enum CastleRights {
    Neither,
    KingSide,
    QueenSide,
    Both,
}

impl CastleRights {
    pub fn has_kingside(self) -> (r: bool)
        ensures
            r == (self == CastleRights::KingSide || self == CastleRights::Both),
    {
        if self == CastleRights::KingSide || self == CastleRights::Both {
            true
        } else {
            false
        }
    }

    pub fn has_queenside(self) -> (r: bool)
        ensures
            r == (self == CastleRights::QueenSide || self == CastleRights::Both),
    {
        if self == CastleRights::QueenSide || self == CastleRights::Both {
            true
        } else {
            false
        }
    }

    pub fn remove_kingside(&mut self)
        ensures
            *final(self) == (match *old(self) {
                CastleRights::KingSide => CastleRights::Neither,
                CastleRights::Both => CastleRights::QueenSide,
                _ => *old(self),
            }),
    {
        *self = match *self {
            CastleRights::KingSide => CastleRights::Neither,
            CastleRights::Both => CastleRights::QueenSide,
            _ => *self,
        }
    }

    pub fn remove_queenside(&mut self)
        ensures
            *final(self) == (match *old(self) {
                CastleRights::QueenSide => CastleRights::Neither,
                CastleRights::Both => CastleRights::KingSide,
                _ => *old(self),
            }),
    {
        *self = match *self {
            CastleRights::QueenSide => CastleRights::Neither,
            CastleRights::Both => CastleRights::KingSide,
            _ => *self,
        }
    }
}

} // verus!
