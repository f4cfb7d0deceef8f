use vstd::prelude::*;

use crate::error::Error;

verus! {

pub const NUM_COLORS: usize = 2;

/// Side to move / piece ownership.
#[derive(Debug, Clone, Copy, PartialEq, Eq, Structural)]
pub enum Color {
    White,
    Black,
}

impl Color {
    /// The index of this colour: White is 0, Black is 1.
    pub open spec fn spec_index(self) -> int {
        match self {
            Color::White => 0,
            Color::Black => 1,
        }
    }

    /// The colour at `v`, wrapping modulo the number of colours.
    pub open spec fn spec_from_index(v: int) -> Color {
        if v % 2 == 0 {
            Color::White
        } else {
            Color::Black
        }
    }

    pub fn from_index(value: usize) -> (r: Self)
        ensures
            r == Color::spec_from_index(value as int),
    {
        if value % 2 == 0 {
            Color::White
        } else {
            Color::Black
        }
    }

    pub fn try_from_index(value: usize) -> (r: Result<Self, Error>)
        ensures
            r == (if value < NUM_COLORS {
                Ok::<Color, Error>(Color::spec_from_index(value as int))
            } else {
                Err::<Color, Error>(Error::InvalidColor)
            }),
    {
        if value < NUM_COLORS {
            Ok(Color::from_index(value))
        } else {
            Err(Error::InvalidColor)
        }
    }

    pub fn to_index(self) -> (r: usize)
        ensures
            r == self.spec_index(),
    {
        match self {
            Color::White => 0,
            Color::Black => 1,
        }
    }

    /// The colour a string denotes: "w"/"W" is White, "b"/"B" is Black.
    pub open spec fn spec_from_str(s: Seq<char>) -> Result<Color, Error> {
        if s.len() == 1 && (s[0] == 'w' || s[0] == 'W') {
            Ok(Color::White)
        } else if s.len() == 1 && (s[0] == 'b' || s[0] == 'B') {
            Ok(Color::Black)
        } else {
            Err(Error::InvalidColor)
        }
    }

    pub fn from_str(s: &str) -> (r: Result<Self, Error>)
        ensures
            r == Color::spec_from_str(s@),
    {
        if s.unicode_len() == 1 {
            let c = s.get_char(0);
            if c == 'w' || c == 'W' {
                Ok(Color::White)
            } else if c == 'b' || c == 'B' {
                Ok(Color::Black)
            } else {
                Err(Error::InvalidColor)
            }
        } else {
            Err(Error::InvalidColor)
        }
    }

    /// The other colour.
    pub fn opposite(self) -> (r: Self)
        ensures
            r == (if self == Color::White {
                Color::Black
            } else {
                Color::White
            }),
    {
        match self {
            Color::White => Color::Black,
            Color::Black => Color::White,
        }
    }
}

} // verus!
