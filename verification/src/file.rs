use vstd::prelude::*;

use crate::error::Error;

verus! {

pub const NUM_FILES: usize = 8;

/// A board file (column), a through h.
#[derive(Debug, Clone, Copy, PartialOrd, Ord, PartialEq, Eq, Structural)]
pub enum File {
    A,
    B,
    C,
    D,
    E,
    F,
    G,
    H,
}

impl File {
    /// The index of this file: a is 0, h is 7.
    pub open spec fn spec_index(self) -> int {
        match self {
            File::A => 0,
            File::B => 1,
            File::C => 2,
            File::D => 3,
            File::E => 4,
            File::F => 5,
            File::G => 6,
            File::H => 7,
        }
    }

    /// The file at `v`, wrapping modulo the number of files.
    pub open spec fn spec_from_index(v: int) -> File {
        if v % 8 == 0 {
            File::A
        } else if v % 8 == 1 {
            File::B
        } else if v % 8 == 2 {
            File::C
        } else if v % 8 == 3 {
            File::D
        } else if v % 8 == 4 {
            File::E
        } else if v % 8 == 5 {
            File::F
        } else if v % 8 == 6 {
            File::G
        } else {
            File::H
        }
    }

    pub fn from_index(value: usize) -> (r: Self)
        ensures
            r == File::spec_from_index(value as int),
            r.spec_index() == value as int % 8,
    {
        let v = value % NUM_FILES;
        if v == 0 {
            File::A
        } else if v == 1 {
            File::B
        } else if v == 2 {
            File::C
        } else if v == 3 {
            File::D
        } else if v == 4 {
            File::E
        } else if v == 5 {
            File::F
        } else if v == 6 {
            File::G
        } else {
            File::H
        }
    }

    pub fn try_from_index(value: usize) -> (r: Option<Self>)
        ensures
            r == (if value < NUM_FILES {
                Some(File::spec_from_index(value as int))
            } else {
                None::<File>
            }),
    {
        if value < NUM_FILES {
            Some(File::from_index(value))
        } else {
            None
        }
    }

    pub fn to_index(self) -> (r: usize)
        ensures
            r == self.spec_index(),
    {
        match self {
            File::A => 0,
            File::B => 1,
            File::C => 2,
            File::D => 3,
            File::E => 4,
            File::F => 5,
            File::G => 6,
            File::H => 7,
        }
    }

    /// The next file to the east, if any.
    pub fn right(self) -> (r: Option<File>)
        ensures
            self.spec_index() < 7 ==> (r matches Some(f) && f.spec_index() == self.spec_index()
                + 1),
            self.spec_index() == 7 ==> r is None,
    {
        match self {
            File::A => Some(File::B),
            File::B => Some(File::C),
            File::C => Some(File::D),
            File::D => Some(File::E),
            File::E => Some(File::F),
            File::F => Some(File::G),
            File::G => Some(File::H),
            File::H => None,
        }
    }

    /// The next file to the west, if any.
    pub fn left(self) -> (r: Option<File>)
        ensures
            self.spec_index() > 0 ==> (r matches Some(f) && f.spec_index() == self.spec_index()
                - 1),
            self.spec_index() == 0 ==> r is None,
    {
        match self {
            File::A => None,
            File::B => Some(File::A),
            File::C => Some(File::B),
            File::D => Some(File::C),
            File::E => Some(File::D),
            File::F => Some(File::E),
            File::G => Some(File::F),
            File::H => Some(File::G),
        }
    }

    /// The file a one-character string denotes, case-insensitively.
    pub open spec fn spec_from_str(s: Seq<char>) -> Result<File, Error> {
        if s.len() != 1 {
            Err::<File, Error>(Error::InvalidFile)
        } else if s[0] == 'a' || s[0] == 'A' {
            Ok(File::A)
        } else if s[0] == 'b' || s[0] == 'B' {
            Ok(File::B)
        } else if s[0] == 'c' || s[0] == 'C' {
            Ok(File::C)
        } else if s[0] == 'd' || s[0] == 'D' {
            Ok(File::D)
        } else if s[0] == 'e' || s[0] == 'E' {
            Ok(File::E)
        } else if s[0] == 'f' || s[0] == 'F' {
            Ok(File::F)
        } else if s[0] == 'g' || s[0] == 'G' {
            Ok(File::G)
        } else if s[0] == 'h' || s[0] == 'H' {
            Ok(File::H)
        } else {
            Err(Error::InvalidFile)
        }
    }

    pub fn from_str(s: &str) -> (r: Result<Self, Error>)
        ensures
            r == File::spec_from_str(s@),
    {
        if s.unicode_len() != 1 {
            return Err(Error::InvalidFile);
        }
        let c = s.get_char(0);
        if c == 'a' || c == 'A' {
            Ok(File::A)
        } else if c == 'b' || c == 'B' {
            Ok(File::B)
        } else if c == 'c' || c == 'C' {
            Ok(File::C)
        } else if c == 'd' || c == 'D' {
            Ok(File::D)
        } else if c == 'e' || c == 'E' {
            Ok(File::E)
        } else if c == 'f' || c == 'F' {
            Ok(File::F)
        } else if c == 'g' || c == 'G' {
            Ok(File::G)
        } else if c == 'h' || c == 'H' {
            Ok(File::H)
        } else {
            Err(Error::InvalidFile)
        }
    }
}

} // verus!
