use chess_core::color::Color;
use chess_core::color::NUM_COLORS;
use chess_core::error::Error;

fn all_colors() -> [Color; NUM_COLORS] {
    [Color::White, Color::Black]
}

#[test]
fn from_index_on_all_indices_less_than_num_colors_returns_correct_color() {
    let all = all_colors();
    for i in 0..NUM_COLORS {
        assert_eq!(Color::from_index(i), all[i]);
    }
}

#[test]
fn from_index_on_indices_greater_than_num_colors_wraps() {
    assert_eq!(Color::from_index(NUM_COLORS), Color::White);
    assert_eq!(Color::from_index(NUM_COLORS + 1), Color::Black);
}

#[test]
fn try_from_index_on_indexes_less_than_num_colors_return_correct_color() {
    for i in 0..NUM_COLORS {
        assert_eq!(Color::try_from_index(i).unwrap(), Color::from_index(i));
    }
}

#[test]
fn try_from_index_on_invalid_indices_returns_invalid_color() {
    assert_eq!(Color::try_from_index(NUM_COLORS).err(), Some(Error::InvalidColor));
    assert_eq!(Color::try_from_index(NUM_COLORS + 1).err(), Some(Error::InvalidColor));
}

#[test]
fn to_index_on_both_colors() {
    let all = all_colors();
    for (i, color) in all.iter().copied().enumerate() {
        assert_eq!(color.to_index(), i)
    }
}

#[test]
fn not_on_both_colors() {
    assert_eq!(Color::White.opposite(), Color::Black);
    assert_eq!(Color::Black.opposite(), Color::White);
}

#[test]
fn from_str_on_both_colors_and_invalid_input() {
    assert_eq!(Color::from_str("w"), Ok(Color::White));
    assert_eq!(Color::from_str("W"), Ok(Color::White));
    assert_eq!(Color::from_str("b"), Ok(Color::Black));
    assert_eq!(Color::from_str("B"), Ok(Color::Black));
    assert_eq!(Color::from_str("x"), Err(Error::InvalidColor));
    assert_eq!(Color::from_str(""), Err(Error::InvalidColor));
    assert_eq!(Color::from_str("wb"), Err(Error::InvalidColor));
}
