use vstd::prelude::*;

use crate::error::Error;

verus! {

pub const NUM_RANKS: usize = 8;

/// A board rank (row), 1 through 8.
#[derive(Debug, Clone, Copy, PartialOrd, Ord, PartialEq, Eq, Structural)]
pub enum Rank {
    First,
    Second,
    Third,
    Fourth,
    Fifth,
    Sixth,
    Seventh,
    Eighth,
}

impl Rank {
    /// The index of this rank: the first rank is 0, the eighth is 7.
    pub open spec fn spec_index(self) -> int {
        match self {
            Rank::First => 0,
            Rank::Second => 1,
            Rank::Third => 2,
            Rank::Fourth => 3,
            Rank::Fifth => 4,
            Rank::Sixth => 5,
            Rank::Seventh => 6,
            Rank::Eighth => 7,
        }
    }

    /// The rank at `v`, wrapping modulo the number of ranks.
    pub open spec fn spec_from_index(v: int) -> Rank {
        if v % 8 == 0 {
            Rank::First
        } else if v % 8 == 1 {
            Rank::Second
        } else if v % 8 == 2 {
            Rank::Third
        } else if v % 8 == 3 {
            Rank::Fourth
        } else if v % 8 == 4 {
            Rank::Fifth
        } else if v % 8 == 5 {
            Rank::Sixth
        } else if v % 8 == 6 {
            Rank::Seventh
        } else {
            Rank::Eighth
        }
    }

    pub fn from_index(value: usize) -> (r: Self)
        ensures
            r == Rank::spec_from_index(value as int),
            r.spec_index() == value as int % 8,
    {
        let v = value % NUM_RANKS;
        if v == 0 {
            Rank::First
        } else if v == 1 {
            Rank::Second
        } else if v == 2 {
            Rank::Third
        } else if v == 3 {
            Rank::Fourth
        } else if v == 4 {
            Rank::Fifth
        } else if v == 5 {
            Rank::Sixth
        } else if v == 6 {
            Rank::Seventh
        } else {
            Rank::Eighth
        }
    }

    pub fn try_from_index(value: usize) -> (r: Result<Self, Error>)
        ensures
            r == (if value < NUM_RANKS {
                Ok::<Rank, Error>(Rank::spec_from_index(value as int))
            } else {
                Err::<Rank, Error>(Error::InvalidRank)
            }),
    {
        if value < NUM_RANKS {
            Ok(Rank::from_index(value))
        } else {
            Err(Error::InvalidRank)
        }
    }

    pub fn to_index(self) -> (r: usize)
        ensures
            r == self.spec_index(),
    {
        match self {
            Rank::First => 0,
            Rank::Second => 1,
            Rank::Third => 2,
            Rank::Fourth => 3,
            Rank::Fifth => 4,
            Rank::Sixth => 5,
            Rank::Seventh => 6,
            Rank::Eighth => 7,
        }
    }

    /// The next rank up the board, if any.
    pub fn up(self) -> (r: Option<Rank>)
        ensures
            self.spec_index() < 7 ==> (r matches Some(k) && k.spec_index() == self.spec_index()
                + 1),
            self.spec_index() == 7 ==> r is None,
    {
        match self {
            Rank::First => Some(Rank::Second),
            Rank::Second => Some(Rank::Third),
            Rank::Third => Some(Rank::Fourth),
            Rank::Fourth => Some(Rank::Fifth),
            Rank::Fifth => Some(Rank::Sixth),
            Rank::Sixth => Some(Rank::Seventh),
            Rank::Seventh => Some(Rank::Eighth),
            Rank::Eighth => None,
        }
    }

    /// The next rank down the board, if any.
    pub fn down(self) -> (r: Option<Rank>)
        ensures
            self.spec_index() > 0 ==> (r matches Some(k) && k.spec_index() == self.spec_index()
                - 1),
            self.spec_index() == 0 ==> r is None,
    {
        match self {
            Rank::First => None,
            Rank::Second => Some(Rank::First),
            Rank::Third => Some(Rank::Second),
            Rank::Fourth => Some(Rank::Third),
            Rank::Fifth => Some(Rank::Fourth),
            Rank::Sixth => Some(Rank::Fifth),
            Rank::Seventh => Some(Rank::Sixth),
            Rank::Eighth => Some(Rank::Seventh),
        }
    }

    /// The rank a one-character string denotes: the digits 1 through 8.
    pub open spec fn spec_from_str(s: Seq<char>) -> Result<Rank, Error> {
        if s.len() != 1 {
            Err::<Rank, Error>(Error::InvalidRank)
        } else if s[0] == '1' {
            Ok(Rank::First)
        } else if s[0] == '2' {
            Ok(Rank::Second)
        } else if s[0] == '3' {
            Ok(Rank::Third)
        } else if s[0] == '4' {
            Ok(Rank::Fourth)
        } else if s[0] == '5' {
            Ok(Rank::Fifth)
        } else if s[0] == '6' {
            Ok(Rank::Sixth)
        } else if s[0] == '7' {
            Ok(Rank::Seventh)
        } else if s[0] == '8' {
            Ok(Rank::Eighth)
        } else {
            Err(Error::InvalidRank)
        }
    }

    pub fn from_str(s: &str) -> (r: Result<Self, Error>)
        ensures
            r == Rank::spec_from_str(s@),
    {
        if s.unicode_len() != 1 {
            return Err(Error::InvalidRank);
        }
        let c = s.get_char(0);
        if c == '1' {
            Ok(Rank::First)
        } else if c == '2' {
            Ok(Rank::Second)
        } else if c == '3' {
            Ok(Rank::Third)
        } else if c == '4' {
            Ok(Rank::Fourth)
        } else if c == '5' {
            Ok(Rank::Fifth)
        } else if c == '6' {
            Ok(Rank::Sixth)
        } else if c == '7' {
            Ok(Rank::Seventh)
        } else if c == '8' {
            Ok(Rank::Eighth)
        } else {
            Err(Error::InvalidRank)
        }
    }
}

} // verus!
