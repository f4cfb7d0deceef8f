use chess_core::bitboard::BB;
use chess_core::magic::generate_magics;
use chess_core::magic::AttackTable;
use chess_core::rays::relevant_mask;
use chess_core::rays::true_attacks;
use chess_core::rays::SlidingKind;
use chess_core::square::SQ;
use chess_core::subsets::subset_at;

fn table() -> AttackTable {
    generate_magics(0xC0FFEE).expect("magic search should succeed")
}

fn bb_of(squares: &[SQ]) -> BB {
    let mut bb = BB::empty();
    for sq in squares {
        bb = bb.with_set(*sq);
    }
    bb
}

#[test]
fn rook_d4_empty_board() {
    let expected = bb_of(&[
        // rank 4, d4 itself excluded
        SQ::A4,
        SQ::B4,
        SQ::C4,
        SQ::E4,
        SQ::F4,
        SQ::G4,
        SQ::H4,
        // file d
        SQ::D1,
        SQ::D2,
        SQ::D3,
        SQ::D5,
        SQ::D6,
        SQ::D7,
        SQ::D8,
    ]);
    assert_eq!(expected.pop_count(), 14);
    assert_eq!(true_attacks(SQ::D4, SlidingKind::Rook, BB::empty()), expected);
    let t = table();
    assert_eq!(t.attacks(SQ::D4, SlidingKind::Rook, BB::empty()), expected);
}

#[test]
fn bishop_a1_empty_board() {
    let expected = bb_of(&[SQ::B2, SQ::C3, SQ::D4, SQ::E5, SQ::F6, SQ::G7, SQ::H8]);
    assert_eq!(expected.pop_count(), 7);
    assert_eq!(true_attacks(SQ::A1, SlidingKind::Bishop, BB::empty()), expected);
    let t = table();
    assert_eq!(t.attacks(SQ::A1, SlidingKind::Bishop, BB::empty()), expected);
}

#[test]
fn rook_a1_blocker_on_a4() {
    let occ = bb_of(&[SQ::A4]);
    let expected = bb_of(&[
        // the a-file up to and including the blocker
        SQ::A2,
        SQ::A3,
        SQ::A4,
        // the unobstructed first rank
        SQ::B1,
        SQ::C1,
        SQ::D1,
        SQ::E1,
        SQ::F1,
        SQ::G1,
        SQ::H1,
    ]);
    assert_eq!(true_attacks(SQ::A1, SlidingKind::Rook, occ), expected);
    let t = table();
    assert_eq!(t.attacks(SQ::A1, SlidingKind::Rook, occ), expected);
}

#[test]
fn bishop_h1_blocker_on_d5() {
    let occ = bb_of(&[SQ::D5]);
    let expected = bb_of(&[SQ::G2, SQ::F3, SQ::E4, SQ::D5]);
    assert_eq!(true_attacks(SQ::H1, SlidingKind::Bishop, occ), expected);
    let t = table();
    assert_eq!(t.attacks(SQ::H1, SlidingKind::Bishop, occ), expected);
}

#[test]
fn rook_a1_mask_stops_short_of_edges() {
    let mask = relevant_mask(SQ::A1, SlidingKind::Rook);
    let expected = bb_of(&[
        SQ::A2,
        SQ::A3,
        SQ::A4,
        SQ::A5,
        SQ::A6,
        SQ::A7,
        SQ::B1,
        SQ::C1,
        SQ::D1,
        SQ::E1,
        SQ::F1,
        SQ::G1,
    ]);
    assert_eq!(mask, expected);
    assert!(!mask.is_set(SQ::A1));
    assert!(!mask.is_set(SQ::A8));
    assert!(!mask.is_set(SQ::H1));
}

#[test]
fn attacks_match_true_attacks_for_all_mask_subsets() {
    let t = table();
    for kind in [SlidingKind::Rook, SlidingKind::Bishop] {
        for s in 0..64 {
            let sq = SQ::from_index(s);
            let mask = relevant_mask(sq, kind);
            let n: usize = 1usize << mask.pop_count();
            for j in 0..n {
                let sub = BB(subset_at(j, mask.0));
                assert_eq!(t.attacks(sq, kind, sub), true_attacks(sq, kind, sub));
            }
        }
    }
}

#[test]
fn mask_irrelevance_on_extra_bits() {
    let t = table();
    for kind in [SlidingKind::Rook, SlidingKind::Bishop] {
        for s in 0..64 {
            let sq = SQ::from_index(s);
            let mask = relevant_mask(sq, kind);
            let n: usize = 1usize << mask.pop_count();
            // a few subsets per square, with junk bits off the mask
            for j in [0, 1, n / 2, n - 1] {
                let sub = BB(subset_at(j, mask.0));
                let extra = BB(0x5A5A_5A5A_5A5A_5A5A & !mask.0);
                assert_eq!(t.attacks(sq, kind, sub), t.attacks(sq, kind, sub.union(extra)));
                assert_eq!(
                    true_attacks(sq, kind, sub),
                    true_attacks(sq, kind, sub.union(extra))
                );
            }
        }
    }
}

#[test]
fn no_damaging_collisions_in_built_table() {
    let t = table();
    for kind in [SlidingKind::Rook, SlidingKind::Bishop] {
        let records = match kind {
            SlidingKind::Rook => &t.rook_magics,
            SlidingKind::Bishop => &t.bishop_magics,
        };
        for s in 0..64 {
            let sq = SQ::from_index(s);
            let rec = records[s];
            let n: usize = 1usize << rec.mask.pop_count();
            let mut seen: Vec<Option<BB>> = vec![None; n];
            for j in 0..n {
                let sub = subset_at(j, rec.mask.0);
                let idx = (sub.wrapping_mul(rec.magic) >> rec.shift) as usize;
                let att = true_attacks(sq, kind, BB(sub));
                match seen[idx] {
                    None => seen[idx] = Some(att),
                    Some(prev) => assert_eq!(prev, att),
                }
            }
        }
    }
}

#[test]
fn same_seed_reproduces_identical_tables() {
    let t1 = generate_magics(987654321).expect("magic search should succeed");
    let t2 = generate_magics(987654321).expect("magic search should succeed");
    assert_eq!(t1.rook_magics, t2.rook_magics);
    assert_eq!(t1.bishop_magics, t2.bishop_magics);
    assert_eq!(t1.rook_attacks, t2.rook_attacks);
    assert_eq!(t1.bishop_attacks, t2.bishop_attacks);
}

#[test]
fn magic_records_have_nonzero_multiplier_and_full_shift() {
    let t = table();
    for s in 0..64 {
        assert_ne!(t.rook_magics[s].magic, 0);
        assert_ne!(t.bishop_magics[s].magic, 0);
        assert_eq!(t.rook_magics[s].shift, 64 - t.rook_magics[s].mask.pop_count());
        assert_eq!(t.bishop_magics[s].shift, 64 - t.bishop_magics[s].mask.pop_count());
    }
}
