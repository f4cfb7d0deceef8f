//! Board-representation core of a chess engine: a 64-bit set over board
//! squares, coordinate types, and magic-bitboard lookup tables for
//! sliding-piece (rook/bishop) attacks.

pub mod bitboard;
pub mod castle_rights;
pub mod chess_move;
pub mod color;
pub mod error;
pub mod file;
pub mod magic;
pub mod piece;
pub mod rank;
pub mod rays;
pub mod rng;
pub mod square;
pub mod subsets;

pub use bitboard::BB;
pub use castle_rights::CastleRights;
pub use chess_move::ChessMove;
pub use color::Color;
pub use error::Error;
pub use file::File;
pub use magic::generate_magics;
pub use magic::AttackTable;
pub use magic::Magic;
pub use piece::Piece;
pub use piece::PieceType;
pub use rank::Rank;
pub use rays::SlidingKind;
pub use square::Direction;
pub use square::SQ;
