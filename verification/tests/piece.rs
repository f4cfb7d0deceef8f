use chess_core::color::Color;
use chess_core::error::Error;
use chess_core::piece::Piece;
use chess_core::piece::PieceType;
use chess_core::piece::NUM_PIECES;

fn all_pieces() -> [Piece; NUM_PIECES] {
    [
        Piece::new(Color::Black, PieceType::Pawn),
        Piece::new(Color::Black, PieceType::Knight),
        Piece::new(Color::Black, PieceType::Bishop),
        Piece::new(Color::Black, PieceType::Rook),
        Piece::new(Color::Black, PieceType::Queen),
        Piece::new(Color::Black, PieceType::King),
        Piece::new(Color::White, PieceType::Pawn),
        Piece::new(Color::White, PieceType::Knight),
        Piece::new(Color::White, PieceType::Bishop),
        Piece::new(Color::White, PieceType::Rook),
        Piece::new(Color::White, PieceType::Queen),
        Piece::new(Color::White, PieceType::King),
    ]
}

fn piece_chars() -> [char; NUM_PIECES] {
    ['p', 'n', 'b', 'r', 'q', 'k', 'P', 'N', 'B', 'R', 'Q', 'K']
}

#[test]
fn try_from_char_on_all_piece_chars_return_correct_piece() {
    let all = all_pieces();
    for (i, c) in piece_chars().iter().copied().enumerate() {
        assert_eq!(Piece::try_from_char(c).unwrap(), all[i]);
    }
}

#[test]
fn try_from_char_on_invalid_piece_char_return_invalid_piece_type_error() {
    let invalid_chars = ['x', '1', '-', ' '];
    for c in invalid_chars {
        assert_eq!(Piece::try_from_char(c).unwrap_err(), Error::InvalidPieceType);
    }
}

#[test]
fn piece_type_on_all_pieces_return_correct_piece_type() {
    assert_eq!(Piece::new(Color::Black, PieceType::Pawn).piece_type(), PieceType::Pawn);
    assert_eq!(Piece::new(Color::Black, PieceType::Knight).piece_type(), PieceType::Knight);
    assert_eq!(Piece::new(Color::Black, PieceType::Bishop).piece_type(), PieceType::Bishop);
    assert_eq!(Piece::new(Color::Black, PieceType::Rook).piece_type(), PieceType::Rook);
    assert_eq!(Piece::new(Color::Black, PieceType::Queen).piece_type(), PieceType::Queen);
    assert_eq!(Piece::new(Color::Black, PieceType::King).piece_type(), PieceType::King);
    assert_eq!(Piece::new(Color::White, PieceType::Pawn).piece_type(), PieceType::Pawn);
    assert_eq!(Piece::new(Color::White, PieceType::Knight).piece_type(), PieceType::Knight);
    assert_eq!(Piece::new(Color::White, PieceType::Bishop).piece_type(), PieceType::Bishop);
    assert_eq!(Piece::new(Color::White, PieceType::Rook).piece_type(), PieceType::Rook);
    assert_eq!(Piece::new(Color::White, PieceType::Queen).piece_type(), PieceType::Queen);
    assert_eq!(Piece::new(Color::White, PieceType::King).piece_type(), PieceType::King);
}

#[test]
fn color_on_all_pieces_return_correct_color() {
    assert_eq!(Piece::new(Color::Black, PieceType::Pawn).color(), Color::Black);
    assert_eq!(Piece::new(Color::Black, PieceType::Knight).color(), Color::Black);
    assert_eq!(Piece::new(Color::Black, PieceType::Bishop).color(), Color::Black);
    assert_eq!(Piece::new(Color::Black, PieceType::Rook).color(), Color::Black);
    assert_eq!(Piece::new(Color::Black, PieceType::Queen).color(), Color::Black);
    assert_eq!(Piece::new(Color::Black, PieceType::King).color(), Color::Black);
    assert_eq!(Piece::new(Color::White, PieceType::Pawn).color(), Color::White);
    assert_eq!(Piece::new(Color::White, PieceType::Knight).color(), Color::White);
    assert_eq!(Piece::new(Color::White, PieceType::Bishop).color(), Color::White);
    assert_eq!(Piece::new(Color::White, PieceType::Rook).color(), Color::White);
    assert_eq!(Piece::new(Color::White, PieceType::Queen).color(), Color::White);
    assert_eq!(Piece::new(Color::White, PieceType::King).color(), Color::White);
}

#[test]
fn to_char_on_all_pieces_return_correct_char() {
    let piece_char_pairs = [
        (Piece::new(Color::Black, PieceType::Pawn), 'p'),
        (Piece::new(Color::Black, PieceType::Knight), 'n'),
        (Piece::new(Color::Black, PieceType::Bishop), 'b'),
        (Piece::new(Color::Black, PieceType::Rook), 'r'),
        (Piece::new(Color::Black, PieceType::Queen), 'q'),
        (Piece::new(Color::Black, PieceType::King), 'k'),
        (Piece::new(Color::White, PieceType::Pawn), 'P'),
        (Piece::new(Color::White, PieceType::Knight), 'N'),
        (Piece::new(Color::White, PieceType::Bishop), 'B'),
        (Piece::new(Color::White, PieceType::Rook), 'R'),
        (Piece::new(Color::White, PieceType::Queen), 'Q'),
        (Piece::new(Color::White, PieceType::King), 'K'),
    ];

    for (piece, expected_char) in piece_char_pairs {
        assert_eq!(piece.to_char(), expected_char);
    }
}

#[test]
fn piece_equality_works_correctly() {
    let all = all_pieces();
    let again = all_pieces();
    assert_eq!(all[0], again[0]);
    assert_eq!(all[1], again[1]);
    assert_eq!(all[2], again[2]);
    assert_eq!(all[3], again[3]);
    assert_eq!(all[4], again[4]);
    assert_eq!(all[5], again[5]);
    assert_eq!(all[6], again[6]);
    assert_eq!(all[7], again[7]);
    assert_eq!(all[8], again[8]);
    assert_eq!(all[9], again[9]);
    assert_eq!(all[10], again[10]);
    assert_eq!(all[11], again[11]);
}

#[test]
fn display_on_all_pieces_return_correct_string() {
    let all = all_pieces();
    for (i, c) in piece_chars().iter().copied().enumerate() {
        assert_eq!(c.to_string(), all[i].to_string());
    }
}
