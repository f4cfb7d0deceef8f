//! Board squares and step directions.

use vstd::prelude::*;

use crate::color::Color;
use crate::error::Error;
use crate::file::File;
use crate::file::NUM_FILES;
use crate::rank::Rank;

verus! {

pub const NUM_SQUARES: usize = 64;

pub const NUM_DIRECTIONS: usize = 8;

/// One of the eight step directions on the board.
#[derive(Debug, Clone, Copy, PartialEq, Eq, Structural)]
pub enum Direction {
    N,
    S,
    E,
    W,
    NE,
    NW,
    SE,
    SW,
}

impl Direction {
    /// File delta of one step in this direction.
    pub open spec fn spec_df(self) -> int {
        match self {
            Direction::N => 0,
            Direction::S => 0,
            Direction::E => 1,
            Direction::W => -1,
            Direction::NE => 1,
            Direction::NW => -1,
            Direction::SE => 1,
            Direction::SW => -1,
        }
    }

    /// Rank delta of one step in this direction.
    pub open spec fn spec_dr(self) -> int {
        match self {
            Direction::N => 1,
            Direction::S => -1,
            Direction::E => 0,
            Direction::W => 0,
            Direction::NE => 1,
            Direction::NW => 1,
            Direction::SE => -1,
            Direction::SW => -1,
        }
    }
}

/// A board square; bit `i` of a bitboard refers to the square of index `i`,
/// counted file-first from a1.
#[derive(Debug, Clone, Copy, PartialEq, Eq, PartialOrd, Ord, Structural)]
pub enum SQ {
    A1,
    B1,
    C1,
    D1,
    E1,
    F1,
    G1,
    H1,
    A2,
    B2,
    C2,
    D2,
    E2,
    F2,
    G2,
    H2,
    A3,
    B3,
    C3,
    D3,
    E3,
    F3,
    G3,
    H3,
    A4,
    B4,
    C4,
    D4,
    E4,
    F4,
    G4,
    H4,
    A5,
    B5,
    C5,
    D5,
    E5,
    F5,
    G5,
    H5,
    A6,
    B6,
    C6,
    D6,
    E6,
    F6,
    G6,
    H6,
    A7,
    B7,
    C7,
    D7,
    E7,
    F7,
    G7,
    H7,
    A8,
    B8,
    C8,
    D8,
    E8,
    F8,
    G8,
    H8,
}

impl SQ {
    /// The index of this square: a1 is 0, b1 is 1, ..., h8 is 63.
    pub open spec fn spec_index(self) -> int {
        match self {
            SQ::A1 => 0,
            SQ::B1 => 1,
            SQ::C1 => 2,
            SQ::D1 => 3,
            SQ::E1 => 4,
            SQ::F1 => 5,
            SQ::G1 => 6,
            SQ::H1 => 7,
            SQ::A2 => 8,
            SQ::B2 => 9,
            SQ::C2 => 10,
            SQ::D2 => 11,
            SQ::E2 => 12,
            SQ::F2 => 13,
            SQ::G2 => 14,
            SQ::H2 => 15,
            SQ::A3 => 16,
            SQ::B3 => 17,
            SQ::C3 => 18,
            SQ::D3 => 19,
            SQ::E3 => 20,
            SQ::F3 => 21,
            SQ::G3 => 22,
            SQ::H3 => 23,
            SQ::A4 => 24,
            SQ::B4 => 25,
            SQ::C4 => 26,
            SQ::D4 => 27,
            SQ::E4 => 28,
            SQ::F4 => 29,
            SQ::G4 => 30,
            SQ::H4 => 31,
            SQ::A5 => 32,
            SQ::B5 => 33,
            SQ::C5 => 34,
            SQ::D5 => 35,
            SQ::E5 => 36,
            SQ::F5 => 37,
            SQ::G5 => 38,
            SQ::H5 => 39,
            SQ::A6 => 40,
            SQ::B6 => 41,
            SQ::C6 => 42,
            SQ::D6 => 43,
            SQ::E6 => 44,
            SQ::F6 => 45,
            SQ::G6 => 46,
            SQ::H6 => 47,
            SQ::A7 => 48,
            SQ::B7 => 49,
            SQ::C7 => 50,
            SQ::D7 => 51,
            SQ::E7 => 52,
            SQ::F7 => 53,
            SQ::G7 => 54,
            SQ::H7 => 55,
            SQ::A8 => 56,
            SQ::B8 => 57,
            SQ::C8 => 58,
            SQ::D8 => 59,
            SQ::E8 => 60,
            SQ::F8 => 61,
            SQ::G8 => 62,
            SQ::H8 => 63,
        }
    }

    pub fn from_index(value: usize) -> (r: Self)
        ensures
            r.spec_index() == value as int % 64,
    {
        let v = value % NUM_SQUARES;
        match v {
            0 => SQ::A1,
            1 => SQ::B1,
            2 => SQ::C1,
            3 => SQ::D1,
            4 => SQ::E1,
            5 => SQ::F1,
            6 => SQ::G1,
            7 => SQ::H1,
            8 => SQ::A2,
            9 => SQ::B2,
            10 => SQ::C2,
            11 => SQ::D2,
            12 => SQ::E2,
            13 => SQ::F2,
            14 => SQ::G2,
            15 => SQ::H2,
            16 => SQ::A3,
            17 => SQ::B3,
            18 => SQ::C3,
            19 => SQ::D3,
            20 => SQ::E3,
            21 => SQ::F3,
            22 => SQ::G3,
            23 => SQ::H3,
            24 => SQ::A4,
            25 => SQ::B4,
            26 => SQ::C4,
            27 => SQ::D4,
            28 => SQ::E4,
            29 => SQ::F4,
            30 => SQ::G4,
            31 => SQ::H4,
            32 => SQ::A5,
            33 => SQ::B5,
            34 => SQ::C5,
            35 => SQ::D5,
            36 => SQ::E5,
            37 => SQ::F5,
            38 => SQ::G5,
            39 => SQ::H5,
            40 => SQ::A6,
            41 => SQ::B6,
            42 => SQ::C6,
            43 => SQ::D6,
            44 => SQ::E6,
            45 => SQ::F6,
            46 => SQ::G6,
            47 => SQ::H6,
            48 => SQ::A7,
            49 => SQ::B7,
            50 => SQ::C7,
            51 => SQ::D7,
            52 => SQ::E7,
            53 => SQ::F7,
            54 => SQ::G7,
            55 => SQ::H7,
            56 => SQ::A8,
            57 => SQ::B8,
            58 => SQ::C8,
            59 => SQ::D8,
            60 => SQ::E8,
            61 => SQ::F8,
            62 => SQ::G8,
            _ => SQ::H8,
        }
    }

    /// The square on file `f` and rank `r`.
    pub fn new(f: File, r: Rank) -> (res: SQ)
        ensures
            res.spec_index() == 8 * r.spec_index() + f.spec_index(),
    {
        let i = NUM_FILES * r.to_index() + f.to_index();
        SQ::from_index(i)
    }

    /// The colour of this square, alternating by index parity starting from
    /// a dark a1.
    pub fn color(self) -> (r: Color)
        ensures
            r == (if self.spec_index() % 2 == 0 {
                Color::Black
            } else {
                Color::White
            }),
    {
        if self.to_index() % 2 == 0 {
            Color::Black
        } else {
            Color::White
        }
    }

    pub fn rank(self) -> (r: Rank)
        ensures
            r.spec_index() == self.spec_index() / 8,
    {
        Rank::from_index(self.to_index() / 8)
    }

    pub fn file(self) -> (r: File)
        ensures
            r.spec_index() == self.spec_index() % 8,
    {
        File::from_index(self.to_index() % 8)
    }

    pub fn to_index(self) -> (r: usize)
        ensures
            r == self.spec_index(),
    {
        match self {
            SQ::A1 => 0,
            SQ::B1 => 1,
            SQ::C1 => 2,
            SQ::D1 => 3,
            SQ::E1 => 4,
            SQ::F1 => 5,
            SQ::G1 => 6,
            SQ::H1 => 7,
            SQ::A2 => 8,
            SQ::B2 => 9,
            SQ::C2 => 10,
            SQ::D2 => 11,
            SQ::E2 => 12,
            SQ::F2 => 13,
            SQ::G2 => 14,
            SQ::H2 => 15,
            SQ::A3 => 16,
            SQ::B3 => 17,
            SQ::C3 => 18,
            SQ::D3 => 19,
            SQ::E3 => 20,
            SQ::F3 => 21,
            SQ::G3 => 22,
            SQ::H3 => 23,
            SQ::A4 => 24,
            SQ::B4 => 25,
            SQ::C4 => 26,
            SQ::D4 => 27,
            SQ::E4 => 28,
            SQ::F4 => 29,
            SQ::G4 => 30,
            SQ::H4 => 31,
            SQ::A5 => 32,
            SQ::B5 => 33,
            SQ::C5 => 34,
            SQ::D5 => 35,
            SQ::E5 => 36,
            SQ::F5 => 37,
            SQ::G5 => 38,
            SQ::H5 => 39,
            SQ::A6 => 40,
            SQ::B6 => 41,
            SQ::C6 => 42,
            SQ::D6 => 43,
            SQ::E6 => 44,
            SQ::F6 => 45,
            SQ::G6 => 46,
            SQ::H6 => 47,
            SQ::A7 => 48,
            SQ::B7 => 49,
            SQ::C7 => 50,
            SQ::D7 => 51,
            SQ::E7 => 52,
            SQ::F7 => 53,
            SQ::G7 => 54,
            SQ::H7 => 55,
            SQ::A8 => 56,
            SQ::B8 => 57,
            SQ::C8 => 58,
            SQ::D8 => 59,
            SQ::E8 => 60,
            SQ::F8 => 61,
            SQ::G8 => 62,
            SQ::H8 => 63,
        }
    }

    /// One step in direction `d`: the neighbouring square, or `None` at the
    /// board's edge.
    pub fn shift(self, d: Direction) -> (res: Option<SQ>)
        ensures
            ({
                let nf = self.spec_index() % 8 + d.spec_df();
                let nr = self.spec_index() / 8 + d.spec_dr();
                &&& (0 <= nf < 8 && 0 <= nr < 8) ==> (res matches Some(s) && s.spec_index() == 8
                    * nr + nf)
                &&& !(0 <= nf < 8 && 0 <= nr < 8) ==> res is None
            }),
    {
        let rank_step: i8 = match d {
            Direction::N | Direction::NE | Direction::NW => 1,
            Direction::S | Direction::SE | Direction::SW => -1,
            Direction::E | Direction::W => 0,
        };
        let file_step: i8 = match d {
            Direction::E | Direction::NE | Direction::SE => 1,
            Direction::W | Direction::NW | Direction::SW => -1,
            Direction::N | Direction::S => 0,
        };
        let new_rank: Option<Rank> = if rank_step == 1 {
            self.rank().up()
        } else if rank_step == -1 {
            self.rank().down()
        } else {
            Some(self.rank())
        };
        let new_file: Option<File> = if file_step == 1 {
            self.file().right()
        } else if file_step == -1 {
            self.file().left()
        } else {
            Some(self.file())
        };
        match (new_file, new_rank) {
            (Some(f), Some(r)) => Some(SQ::new(f, r)),
            _ => None,
        }
    }

    /// The file index a letter denotes, case-insensitively.
    pub open spec fn spec_file_char(c: char) -> Option<int> {
        if c == 'a' || c == 'A' {
            Some(0int)
        } else if c == 'b' || c == 'B' {
            Some(1int)
        } else if c == 'c' || c == 'C' {
            Some(2int)
        } else if c == 'd' || c == 'D' {
            Some(3int)
        } else if c == 'e' || c == 'E' {
            Some(4int)
        } else if c == 'f' || c == 'F' {
            Some(5int)
        } else if c == 'g' || c == 'G' {
            Some(6int)
        } else if c == 'h' || c == 'H' {
            Some(7int)
        } else {
            None
        }
    }

    /// The rank index a digit denotes.
    pub open spec fn spec_rank_char(c: char) -> Option<int> {
        if c == '1' {
            Some(0int)
        } else if c == '2' {
            Some(1int)
        } else if c == '3' {
            Some(2int)
        } else if c == '4' {
            Some(3int)
        } else if c == '5' {
            Some(4int)
        } else if c == '6' {
            Some(5int)
        } else if c == '7' {
            Some(6int)
        } else if c == '8' {
            Some(7int)
        } else {
            None
        }
    }

    /// Whether `s` is a well-formed square name such as "e4" or "E4".
    pub open spec fn spec_str_valid(s: Seq<char>) -> bool {
        s.len() == 2 && SQ::spec_file_char(s[0]) is Some && SQ::spec_rank_char(s[1]) is Some
    }

    pub fn from_str(s: &str) -> (res: Result<Self, Error>)
        ensures
            SQ::spec_str_valid(s@) ==> (res matches Ok(q) && q.spec_index() == 8
                * SQ::spec_rank_char(s@[1]).unwrap() + SQ::spec_file_char(s@[0]).unwrap()),
            !SQ::spec_str_valid(s@) ==> res == Err::<SQ, Error>(Error::InvalidSquare),
    {
        if s.unicode_len() != 2 {
            return Err(Error::InvalidSquare);
        }
        let fc = s.get_char(0);
        let rc = s.get_char(1);
        let fi: usize = if fc == 'a' || fc == 'A' {
            0
        } else if fc == 'b' || fc == 'B' {
            1
        } else if fc == 'c' || fc == 'C' {
            2
        } else if fc == 'd' || fc == 'D' {
            3
        } else if fc == 'e' || fc == 'E' {
            4
        } else if fc == 'f' || fc == 'F' {
            5
        } else if fc == 'g' || fc == 'G' {
            6
        } else if fc == 'h' || fc == 'H' {
            7
        } else {
            return Err(Error::InvalidSquare);
        };
        let ri: usize = if rc == '1' {
            0
        } else if rc == '2' {
            1
        } else if rc == '3' {
            2
        } else if rc == '4' {
            3
        } else if rc == '5' {
            4
        } else if rc == '6' {
            5
        } else if rc == '7' {
            6
        } else if rc == '8' {
            7
        } else {
            return Err(Error::InvalidSquare);
        };
        Ok(SQ::from_index(NUM_FILES * ri + fi))
    }
}

} // verus!
