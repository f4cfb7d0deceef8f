use vstd::prelude::*;

use crate::color::Color;
use crate::error::Error;

verus! {

pub const NUM_PIECES: usize = 12;

/// The kind of a chess piece, regardless of its colour.
#[derive(Debug, Clone, Copy, PartialEq, Eq, Structural)]
pub enum PieceType {
    Pawn,
    Knight,
    Bishop,
    Rook,
    Queen,
    King,
}

/// A coloured piece.
#[derive(Debug, Clone, Copy, PartialEq, Eq, Structural)]
pub struct Piece {
    pub color: Color,
    pub piece_type: PieceType,
}

impl Piece {
    /// The piece a letter denotes in algebraic notation: lower case is black,
    /// upper case is white.
    pub open spec fn spec_from_char(c: char) -> Result<Piece, Error> {
        if c == 'p' {
            Ok(Piece { color: Color::Black, piece_type: PieceType::Pawn })
        } else if c == 'n' {
            Ok(Piece { color: Color::Black, piece_type: PieceType::Knight })
        } else if c == 'b' {
            Ok(Piece { color: Color::Black, piece_type: PieceType::Bishop })
        } else if c == 'r' {
            Ok(Piece { color: Color::Black, piece_type: PieceType::Rook })
        } else if c == 'q' {
            Ok(Piece { color: Color::Black, piece_type: PieceType::Queen })
        } else if c == 'k' {
            Ok(Piece { color: Color::Black, piece_type: PieceType::King })
        } else if c == 'P' {
            Ok(Piece { color: Color::White, piece_type: PieceType::Pawn })
        } else if c == 'N' {
            Ok(Piece { color: Color::White, piece_type: PieceType::Knight })
        } else if c == 'B' {
            Ok(Piece { color: Color::White, piece_type: PieceType::Bishop })
        } else if c == 'R' {
            Ok(Piece { color: Color::White, piece_type: PieceType::Rook })
        } else if c == 'Q' {
            Ok(Piece { color: Color::White, piece_type: PieceType::Queen })
        } else if c == 'K' {
            Ok(Piece { color: Color::White, piece_type: PieceType::King })
        } else {
            Err(Error::InvalidPieceType)
        }
    }

    pub fn try_from_char(c: char) -> (r: Result<Self, Error>)
        ensures
            r == Piece::spec_from_char(c),
    {
        if c == 'p' {
            Ok(Piece::new(Color::Black, PieceType::Pawn))
        } else if c == 'n' {
            Ok(Piece::new(Color::Black, PieceType::Knight))
        } else if c == 'b' {
            Ok(Piece::new(Color::Black, PieceType::Bishop))
        } else if c == 'r' {
            Ok(Piece::new(Color::Black, PieceType::Rook))
        } else if c == 'q' {
            Ok(Piece::new(Color::Black, PieceType::Queen))
        } else if c == 'k' {
            Ok(Piece::new(Color::Black, PieceType::King))
        } else if c == 'P' {
            Ok(Piece::new(Color::White, PieceType::Pawn))
        } else if c == 'N' {
            Ok(Piece::new(Color::White, PieceType::Knight))
        } else if c == 'B' {
            Ok(Piece::new(Color::White, PieceType::Bishop))
        } else if c == 'R' {
            Ok(Piece::new(Color::White, PieceType::Rook))
        } else if c == 'Q' {
            Ok(Piece::new(Color::White, PieceType::Queen))
        } else if c == 'K' {
            Ok(Piece::new(Color::White, PieceType::King))
        } else {
            Err(Error::InvalidPieceType)
        }
    }

    pub fn new(color: Color, piece_type: PieceType) -> (r: Self)
        ensures
            r.color == color,
            r.piece_type == piece_type,
    {
        Piece { color, piece_type }
    }

    pub fn piece_type(self) -> (r: PieceType)
        ensures
            r == self.piece_type,
    {
        self.piece_type
    }

    pub fn color(self) -> (r: Color)
        ensures
            r == self.color,
    {
        self.color
    }

    /// The letter denoting this piece in algebraic notation.
    pub open spec fn spec_char(self) -> char {
        match self.piece_type {
            PieceType::Pawn => if self.color == Color::White {
                'P'
            } else {
                'p'
            },
            PieceType::Knight => if self.color == Color::White {
                'N'
            } else {
                'n'
            },
            PieceType::Bishop => if self.color == Color::White {
                'B'
            } else {
                'b'
            },
            PieceType::Rook => if self.color == Color::White {
                'R'
            } else {
                'r'
            },
            PieceType::Queen => if self.color == Color::White {
                'Q'
            } else {
                'q'
            },
            PieceType::King => if self.color == Color::White {
                'K'
            } else {
                'k'
            },
        }
    }

    pub fn to_char(self) -> (r: char)
        ensures
            r == self.spec_char(),
    {
        match self.piece_type {
            PieceType::Pawn => if self.color == Color::White {
                'P'
            } else {
                'p'
            },
            PieceType::Knight => if self.color == Color::White {
                'N'
            } else {
                'n'
            },
            PieceType::Bishop => if self.color == Color::White {
                'B'
            } else {
                'b'
            },
            PieceType::Rook => if self.color == Color::White {
                'R'
            } else {
                'r'
            },
            PieceType::Queen => if self.color == Color::White {
                'Q'
            } else {
                'q'
            },
            PieceType::King => if self.color == Color::White {
                'K'
            } else {
                'k'
            },
        }
    }

    /// This piece's one-letter name as an owned string.
    pub fn to_string(self) -> (r: String)
        ensures
            r@.len() == 1,
            r@[0] == self.spec_char(),
    {
        proof {
            reveal_strlit("P");
            reveal_strlit("p");
            reveal_strlit("N");
            reveal_strlit("n");
            reveal_strlit("B");
            reveal_strlit("b");
            reveal_strlit("R");
            reveal_strlit("r");
            reveal_strlit("Q");
            reveal_strlit("q");
            reveal_strlit("K");
            reveal_strlit("k");
        }
        let c = self.to_char();
        if c == 'P' {
            str_one("P", Ghost('P'))
        } else if c == 'p' {
            str_one("p", Ghost('p'))
        } else if c == 'N' {
            str_one("N", Ghost('N'))
        } else if c == 'n' {
            str_one("n", Ghost('n'))
        } else if c == 'B' {
            str_one("B", Ghost('B'))
        } else if c == 'b' {
            str_one("b", Ghost('b'))
        } else if c == 'R' {
            str_one("R", Ghost('R'))
        } else if c == 'r' {
            str_one("r", Ghost('r'))
        } else if c == 'Q' {
            str_one("Q", Ghost('Q'))
        } else if c == 'q' {
            str_one("q", Ghost('q'))
        } else if c == 'K' {
            str_one("K", Ghost('K'))
        } else {
            str_one("k", Ghost('k'))
        }
    }
}

/// Turns a one-character string literal into an owned string, checking in
/// ghost code which character it holds.
fn str_one(s: &str, Ghost(c): Ghost<char>) -> (r: String)
    requires
        s@.len() == 1,
        s@[0] == c,
    ensures
        r@.len() == 1,
        r@[0] == c,
{
    s.to_owned()
}

} // verus!
