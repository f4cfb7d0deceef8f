use chess_core::color::Color;
use chess_core::file::File;
use chess_core::file::NUM_FILES;
use chess_core::rank::Rank;
use chess_core::rank::NUM_RANKS;
use chess_core::square::Direction;
use chess_core::square::NUM_SQUARES;
use chess_core::square::SQ;

fn all_squares() -> [SQ; NUM_SQUARES] {
    [
        SQ::A1, SQ::B1, SQ::C1, SQ::D1, SQ::E1, SQ::F1, SQ::G1, SQ::H1,
        SQ::A2, SQ::B2, SQ::C2, SQ::D2, SQ::E2, SQ::F2, SQ::G2, SQ::H2,
        SQ::A3, SQ::B3, SQ::C3, SQ::D3, SQ::E3, SQ::F3, SQ::G3, SQ::H3,
        SQ::A4, SQ::B4, SQ::C4, SQ::D4, SQ::E4, SQ::F4, SQ::G4, SQ::H4,
        SQ::A5, SQ::B5, SQ::C5, SQ::D5, SQ::E5, SQ::F5, SQ::G5, SQ::H5,
        SQ::A6, SQ::B6, SQ::C6, SQ::D6, SQ::E6, SQ::F6, SQ::G6, SQ::H6,
        SQ::A7, SQ::B7, SQ::C7, SQ::D7, SQ::E7, SQ::F7, SQ::G7, SQ::H7,
        SQ::A8, SQ::B8, SQ::C8, SQ::D8, SQ::E8, SQ::F8, SQ::G8, SQ::H8,
    ]
}

fn square_strings() -> [&'static str; NUM_SQUARES] {
    [
        "a1", "b1", "c1", "d1", "e1", "f1", "g1", "h1",
        "a2", "b2", "c2", "d2", "e2", "f2", "g2", "h2",
        "a3", "b3", "c3", "d3", "e3", "f3", "g3", "h3",
        "a4", "b4", "c4", "d4", "e4", "f4", "g4", "h4",
        "a5", "b5", "c5", "d5", "e5", "f5", "g5", "h5",
        "a6", "b6", "c6", "d6", "e6", "f6", "g6", "h6",
        "a7", "b7", "c7", "d7", "e7", "f7", "g7", "h7",
        "a8", "b8", "c8", "d8", "e8", "f8", "g8", "h8",
    ]
}

fn all_files() -> [File; NUM_FILES] {
    [File::A, File::B, File::C, File::D, File::E, File::F, File::G, File::H]
}

fn all_ranks() -> [Rank; NUM_RANKS] {
    [
        Rank::First,
        Rank::Second,
        Rank::Third,
        Rank::Fourth,
        Rank::Fifth,
        Rank::Sixth,
        Rank::Seventh,
        Rank::Eighth,
    ]
}

#[test]
fn from_on_indices_less_than_num_squares_return_correct_sq() {
    let all = all_squares();
    for i in 0..NUM_SQUARES {
        assert_eq!(SQ::from_index(i), all[i]);
    }
}

#[test]
fn from_index_on_indices_equal_or_greater_than_num_squares_wraps() {
    assert_eq!(SQ::from_index(NUM_SQUARES), SQ::A1);
    assert_eq!(SQ::from_index(NUM_SQUARES + 1), SQ::B1);
}

#[test]
fn from_str_accepts_all_squares_lowercase() {
    let strings = square_strings();
    for sq in all_squares() {
        assert_eq!(SQ::from_str(strings[sq.to_index()]), Ok(sq));
    }
}

#[test]
fn from_str_accepts_all_squares_uppercase() {
    let strings = square_strings();
    for sq in all_squares() {
        let s = String::from(strings[sq.to_index()]).to_ascii_lowercase();
        assert_eq!(SQ::from_str(&s), Ok(sq));
    }
}

#[test]
fn from_str_rejects_invalid_strings() {
    let invalid = ["", "a", "1a", "i1", "a9", "z0", "a10", "aa1", "A0", "H9"];

    for s in invalid {
        assert!(SQ::from_str(s).is_err());
    }
}

#[test]
fn new_on_all_rank_file_combos_is_correct() {
    for sq in all_squares().iter().copied() {
        assert_eq!(sq, SQ::new(sq.file(), sq.rank()));
    }
}

#[test]
fn color_on_all_squares_returns_correct_color() {
    let mut color = Color::Black;
    for sq in all_squares().iter().copied() {
        assert_eq!(color, sq.color());
        color = color.opposite();
    }
}

#[test]
fn rank_on_all_squares_returns_correct_rank() {
    for rank in all_ranks().iter().copied() {
        for file in all_files().iter().copied() {
            let sq = SQ::new(file, rank);
            assert_eq!(sq.rank(), rank);
        }
    }
}

#[test]
fn to_file_on_all_squares_returns_correct_file() {
    for rank in all_ranks().iter().copied() {
        for file in all_files().iter().copied() {
            let sq = SQ::new(file, rank);
            assert_eq!(sq.file(), file);
        }
    }
}

#[test]
fn to_index_on_all_squares_returns_correct() {
    for (i, sq) in all_squares().iter().copied().enumerate() {
        assert_eq!(sq.to_index(), i);
    }
}

#[test]
fn shift() {
    assert_eq!(SQ::E4.shift(Direction::N), Some(SQ::E5));
    assert_eq!(SQ::E4.shift(Direction::S), Some(SQ::E3));
    assert_eq!(SQ::E4.shift(Direction::E), Some(SQ::F4));
    assert_eq!(SQ::E4.shift(Direction::W), Some(SQ::D4));
    assert_eq!(SQ::E4.shift(Direction::NE), Some(SQ::F5));
    assert_eq!(SQ::E4.shift(Direction::NW), Some(SQ::D5));
    assert_eq!(SQ::E4.shift(Direction::SE), Some(SQ::F3));
    assert_eq!(SQ::E4.shift(Direction::SW), Some(SQ::D3));

    assert_eq!(SQ::A1.shift(Direction::S), None);
    assert_eq!(SQ::A1.shift(Direction::W), None);
    assert_eq!(SQ::H1.shift(Direction::S), None);
    assert_eq!(SQ::H1.shift(Direction::E), None);
    assert_eq!(SQ::A8.shift(Direction::N), None);
    assert_eq!(SQ::A8.shift(Direction::W), None);
    assert_eq!(SQ::H8.shift(Direction::N), None);
    assert_eq!(SQ::H8.shift(Direction::E), None);
}
