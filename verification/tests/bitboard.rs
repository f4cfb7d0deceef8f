use chess_core::bitboard::BB;
use chess_core::square::SQ;

#[test]
fn with_set() {
    assert!(BB::empty().with_set(SQ::C3).is_set(SQ::C3));
    assert_eq!(
        BB::empty().with_set(SQ::E5).with_set(SQ::A1),
        BB::from_sq(SQ::E5).union(BB::from_sq(SQ::A1))
    );
}

#[test]
fn with_clear() {
    assert!(!BB::full().with_clear(SQ::D4).is_set(SQ::D4));
    assert_eq!(
        BB::full().with_clear(SQ::F4).with_clear(SQ::H8),
        BB::full()
            .intersect(BB::from_sq(SQ::F4).complement())
            .intersect(BB::from_sq(SQ::H8).complement())
    );
}

#[test]
fn is_set() {
    let bb = BB::empty().with_set(SQ::A2).with_set(SQ::G5).with_set(SQ::D6);
    assert!(bb.is_set(SQ::A2));
    assert!(bb.is_set(SQ::G5));
    assert!(bb.is_set(SQ::D6));
    assert!(!bb.is_set(SQ::E4));
}

#[test]
fn lsb_sq() {
    assert_eq!(BB::from_sq(SQ::A3).lsb_sq(), Some(SQ::A3));
    assert_eq!(BB::from_sq(SQ::E8).lsb_sq(), Some(SQ::E8));
    assert_eq!(BB::empty().lsb_sq(), None);
    assert_eq!(BB::full().lsb_sq(), Some(SQ::A1));
}

#[test]
fn pop_count() {
    let bb = BB::empty().with_set(SQ::B2).with_set(SQ::C4).with_set(SQ::F7);
    assert_eq!(bb.pop_count(), 3);
    assert_eq!(BB::full().pop_count(), 64);
    assert_eq!(BB::empty().pop_count(), 0);
}

#[test]
fn iterator() {
    let mut bb = BB::full();
    let mut i = 0;
    while let Some(sq) = bb.next_sq() {
        assert_eq!(sq, SQ::from_index(i));
        i += 1;
    }
    assert_eq!(i, 64);
}

#[test]
fn xor_is_symmetric_difference() {
    let a = BB::empty().with_set(SQ::A1).with_set(SQ::B2);
    let b = BB::empty().with_set(SQ::B2).with_set(SQ::C3);
    let x = a.xor(b);
    assert!(x.is_set(SQ::A1));
    assert!(!x.is_set(SQ::B2));
    assert!(x.is_set(SQ::C3));
    assert_eq!(x.pop_count(), 2);
}

#[test]
fn mul_wrap_wraps() {
    assert_eq!(BB(3).mul_wrap(5), 15);
    assert_eq!(BB(u64::MAX).mul_wrap(2), u64::MAX - 1);
}
