//! Ray geometry: relevant-occupancy masks and ray-cast attack sets for the
//! sliding pieces, with the lemmas that tie attacks to the mask.

use vstd::prelude::*;

use crate::bitboard::BB;
use crate::square::Direction;
use crate::square::SQ;

verus! {

/// The sliding piece kinds whose attacks are table-driven.
#[derive(Debug, Clone, Copy, PartialEq, Eq, Structural)]
pub enum SlidingKind {
    Rook,
    Bishop,
}

/// Whether file `f`, rank `r` is a board square.
pub open spec fn on_board(f: int, r: int) -> bool {
    0 <= f < 8 && 0 <= r < 8
}

/// The index of the square on file `f`, rank `r`.
pub open spec fn sq_at(f: int, r: int) -> int {
    8 * r + f
}

/// An upper bound on the number of steps a walk from (`f`, `r`) can take in
/// direction (`df`, `dr`) before leaving the board; the walk's termination
/// measure.
pub open spec fn ray_len(f: int, r: int, df: int, dr: int) -> int {
    if df > 0 {
        7 - f
    } else if df < 0 {
        f
    } else if dr > 0 {
        7 - r
    } else {
        r
    }
}

/// The squares a slider on (`f`, `r`) attacks along direction (`df`, `dr`)
/// under occupancy `occ`: every square walked, stopping after the first
/// occupied one (the blocker itself is included).
pub open spec fn ray_attacks(f: int, r: int, df: int, dr: int, occ: Set<int>) -> Set<int>
    decreases ray_len(f, r, df, dr),
{
    if (df == 0 && dr == 0) || !on_board(f + df, r + dr) {
        Set::empty()
    } else if occ.contains(sq_at(f + df, r + dr)) {
        Set::empty().insert(sq_at(f + df, r + dr))
    } else {
        ray_attacks(f + df, r + dr, df, dr, occ).insert(sq_at(f + df, r + dr))
    }
}

/// The squares along direction (`df`, `dr`) from (`f`, `r`) whose occupancy
/// can influence the ray's attacks: every square walked short of the board's
/// edge square in that direction.
pub open spec fn ray_mask(f: int, r: int, df: int, dr: int) -> Set<int>
    decreases ray_len(f, r, df, dr),
{
    if (df == 0 && dr == 0) || !on_board(f + df, r + dr) || !on_board(f + 2 * df, r + 2 * dr) {
        Set::empty()
    } else {
        ray_mask(f + df, r + dr, df, dr).insert(sq_at(f + df, r + dr))
    }
}

/// The full attack set of a slider of kind `k` on square `s` under occupancy
/// `occ`: the union of its four rays.
pub open spec fn sliding_attacks(s: int, k: SlidingKind, occ: Set<int>) -> Set<int> {
    let f = s % 8;
    let r = s / 8;
    match k {
        SlidingKind::Rook => ray_attacks(f, r, 0, 1, occ).union(ray_attacks(f, r, 0, -1, occ))
            .union(ray_attacks(f, r, 1, 0, occ)).union(ray_attacks(f, r, -1, 0, occ)),
        SlidingKind::Bishop => ray_attacks(f, r, 1, 1, occ).union(ray_attacks(f, r, -1, 1, occ))
            .union(ray_attacks(f, r, 1, -1, occ)).union(ray_attacks(f, r, -1, -1, occ)),
    }
}

/// The relevant-occupancy mask of a slider of kind `k` on square `s`: the
/// union of its four ray masks.
pub open spec fn sliding_mask(s: int, k: SlidingKind) -> Set<int> {
    let f = s % 8;
    let r = s / 8;
    match k {
        SlidingKind::Rook => ray_mask(f, r, 0, 1).union(ray_mask(f, r, 0, -1)).union(
            ray_mask(f, r, 1, 0),
        ).union(ray_mask(f, r, -1, 0)),
        SlidingKind::Bishop => ray_mask(f, r, 1, 1).union(ray_mask(f, r, -1, 1)).union(
            ray_mask(f, r, 1, -1),
        ).union(ray_mask(f, r, -1, -1)),
    }
}

/// File and rank of a square index, recovered from `sq_at`.
proof fn lemma_sq_coords(f: int, r: int)
    by (nonlinear_arith)
    requires
        0 <= f < 8,
        0 <= r < 8,
    ensures
        (8 * r + f) % 8 == f,
        (8 * r + f) / 8 == r,
        0 <= 8 * r + f < 64,
{
}

/// Every square of a ray mask lies on the board, strictly beyond the origin
/// in the ray's direction.
proof fn lemma_ray_mask_coords(f: int, r: int, df: int, dr: int)
    ensures
        forall|x: int|
            #[trigger] ray_mask(f, r, df, dr).contains(x) ==> {
                &&& on_board(x % 8, x / 8)
                &&& (df > 0 ==> x % 8 > f)
                &&& (df < 0 ==> x % 8 < f)
                &&& (dr > 0 ==> x / 8 > r)
                &&& (dr < 0 ==> x / 8 < r)
            },
    decreases ray_len(f, r, df, dr),
{
    if (df == 0 && dr == 0) || !on_board(f + df, r + dr) || !on_board(f + 2 * df, r + 2 * dr) {
    } else {
        lemma_ray_mask_coords(f + df, r + dr, df, dr);
        lemma_sq_coords(f + df, r + dr);
        assert forall|x: int| #[trigger] ray_mask(f, r, df, dr).contains(x) implies {
            &&& on_board(x % 8, x / 8)
            &&& (df > 0 ==> x % 8 > f)
            &&& (df < 0 ==> x % 8 < f)
            &&& (dr > 0 ==> x / 8 > r)
            &&& (dr < 0 ==> x / 8 < r)
        } by {
            if x != sq_at(f + df, r + dr) {
                assert(ray_mask(f + df, r + dr, df, dr).contains(x));
            }
        }
    }
}

/// A ray's attack set depends only on the occupancy of the ray's mask
/// squares.
proof fn lemma_ray_agree(f: int, r: int, df: int, dr: int, occ1: Set<int>, occ2: Set<int>)
    requires
        forall|x: int|
            #[trigger] ray_mask(f, r, df, dr).contains(x) ==> occ1.contains(x) == occ2.contains(x),
    ensures
        ray_attacks(f, r, df, dr, occ1) == ray_attacks(f, r, df, dr, occ2),
    decreases ray_len(f, r, df, dr),
{
    if (df == 0 && dr == 0) || !on_board(f + df, r + dr) {
        // both rays are empty
    } else {
        let x = sq_at(f + df, r + dr);
        if !on_board(f + 2 * df, r + 2 * dr) {
            // the next square is the board's edge in this direction: the ray
            // is exactly that square, occupied or not
            assert(ray_attacks(f + df, r + dr, df, dr, occ1) =~= Set::empty());
            assert(ray_attacks(f + df, r + dr, df, dr, occ2) =~= Set::empty());
            assert(ray_attacks(f, r, df, dr, occ1) =~= Set::empty().insert(x));
            assert(ray_attacks(f, r, df, dr, occ2) =~= Set::empty().insert(x));
        } else {
            assert(ray_mask(f, r, df, dr).contains(x));
            if occ1.contains(x) {
                assert(ray_attacks(f, r, df, dr, occ1) =~= ray_attacks(f, r, df, dr, occ2));
            } else {
                assert(forall|y: int| #[trigger]
                    ray_mask(f + df, r + dr, df, dr).contains(y) ==> ray_mask(
                        f,
                        r,
                        df,
                        dr,
                    ).contains(y));
                lemma_ray_agree(f + df, r + dr, df, dr, occ1, occ2);
            }
        }
    }
}

/// The attack set of a slider depends only on the occupancy of its relevant
/// mask.
pub proof fn lemma_attacks_agree(s: int, k: SlidingKind, occ1: Set<int>, occ2: Set<int>)
    requires
        forall|x: int|
            #[trigger] sliding_mask(s, k).contains(x) ==> occ1.contains(x) == occ2.contains(x),
    ensures
        sliding_attacks(s, k, occ1) == sliding_attacks(s, k, occ2),
{
    let f = s % 8;
    let r = s / 8;
    match k {
        SlidingKind::Rook => {
            assert forall|x: int| #[trigger] ray_mask(f, r, 0, 1).contains(x) implies occ1.contains(
                x,
            ) == occ2.contains(x) by {
                assert(sliding_mask(s, k).contains(x));
            }
            assert forall|x: int| #[trigger] ray_mask(f, r, 0, -1).contains(x) implies occ1
                .contains(x) == occ2.contains(x) by {
                assert(sliding_mask(s, k).contains(x));
            }
            assert forall|x: int| #[trigger] ray_mask(f, r, 1, 0).contains(x) implies occ1.contains(
                x,
            ) == occ2.contains(x) by {
                assert(sliding_mask(s, k).contains(x));
            }
            assert forall|x: int| #[trigger] ray_mask(f, r, -1, 0).contains(x) implies occ1
                .contains(x) == occ2.contains(x) by {
                assert(sliding_mask(s, k).contains(x));
            }
            lemma_ray_agree(f, r, 0, 1, occ1, occ2);
            lemma_ray_agree(f, r, 0, -1, occ1, occ2);
            lemma_ray_agree(f, r, 1, 0, occ1, occ2);
            lemma_ray_agree(f, r, -1, 0, occ1, occ2);
        },
        SlidingKind::Bishop => {
            assert forall|x: int| #[trigger] ray_mask(f, r, 1, 1).contains(x) implies occ1.contains(
                x,
            ) == occ2.contains(x) by {
                assert(sliding_mask(s, k).contains(x));
            }
            assert forall|x: int| #[trigger] ray_mask(f, r, -1, 1).contains(x) implies occ1
                .contains(x) == occ2.contains(x) by {
                assert(sliding_mask(s, k).contains(x));
            }
            assert forall|x: int| #[trigger] ray_mask(f, r, 1, -1).contains(x) implies occ1
                .contains(x) == occ2.contains(x) by {
                assert(sliding_mask(s, k).contains(x));
            }
            assert forall|x: int| #[trigger] ray_mask(f, r, -1, -1).contains(x) implies occ1
                .contains(x) == occ2.contains(x) by {
                assert(sliding_mask(s, k).contains(x));
            }
            lemma_ray_agree(f, r, 1, 1, occ1, occ2);
            lemma_ray_agree(f, r, -1, 1, occ1, occ2);
            lemma_ray_agree(f, r, 1, -1, occ1, occ2);
            lemma_ray_agree(f, r, -1, -1, occ1, occ2);
        },
    }
}

/// Mask-irrelevance: adding occupancy bits disjoint from the relevant mask
/// never changes the attack set.
pub proof fn lemma_mask_irrelevance(s: int, k: SlidingKind, sub: Set<int>, extra: Set<int>)
    requires
        sub.subset_of(sliding_mask(s, k)),
        extra.disjoint(sliding_mask(s, k)),
    ensures
        sliding_attacks(s, k, sub.union(extra)) == sliding_attacks(s, k, sub),
{
    lemma_attacks_agree(s, k, sub.union(extra), sub);
}

/// The relevant mask never holds the origin square.
pub proof fn lemma_mask_excludes_origin(s: int, k: SlidingKind)
    requires
        0 <= s < 64,
    ensures
        !sliding_mask(s, k).contains(s),
{
    let f = s % 8;
    let r = s / 8;
    assert(s == sq_at(f, r));
    match k {
        SlidingKind::Rook => {
            lemma_ray_mask_coords(f, r, 0, 1);
            lemma_ray_mask_coords(f, r, 0, -1);
            lemma_ray_mask_coords(f, r, 1, 0);
            lemma_ray_mask_coords(f, r, -1, 0);
        },
        SlidingKind::Bishop => {
            lemma_ray_mask_coords(f, r, 1, 1);
            lemma_ray_mask_coords(f, r, -1, 1);
            lemma_ray_mask_coords(f, r, 1, -1);
            lemma_ray_mask_coords(f, r, -1, -1);
        },
    }
}

/// The relevant mask always holds at least one square.
pub proof fn lemma_mask_nonempty(s: int, k: SlidingKind)
    requires
        0 <= s < 64,
    ensures
        exists|x: int| sliding_mask(s, k).contains(x),
{
    let f = s % 8;
    let r = s / 8;
    match k {
        SlidingKind::Rook => {
            if f <= 5 {
                lemma_sq_coords(f + 1, r);
                assert(ray_mask(f, r, 1, 0).contains(sq_at(f + 1, r)));
                assert(sliding_mask(s, k).contains(sq_at(f + 1, r)));
            } else {
                lemma_sq_coords(f - 1, r);
                assert(ray_mask(f, r, -1, 0).contains(sq_at(f - 1, r)));
                assert(sliding_mask(s, k).contains(sq_at(f - 1, r)));
            }
        },
        SlidingKind::Bishop => {
            if r <= 5 {
                if f <= 5 {
                    lemma_sq_coords(f + 1, r + 1);
                    assert(ray_mask(f, r, 1, 1).contains(sq_at(f + 1, r + 1)));
                    assert(sliding_mask(s, k).contains(sq_at(f + 1, r + 1)));
                } else {
                    lemma_sq_coords(f - 1, r + 1);
                    assert(ray_mask(f, r, -1, 1).contains(sq_at(f - 1, r + 1)));
                    assert(sliding_mask(s, k).contains(sq_at(f - 1, r + 1)));
                }
            } else {
                if f <= 5 {
                    lemma_sq_coords(f + 1, r - 1);
                    assert(ray_mask(f, r, 1, -1).contains(sq_at(f + 1, r - 1)));
                    assert(sliding_mask(s, k).contains(sq_at(f + 1, r - 1)));
                } else {
                    lemma_sq_coords(f - 1, r - 1);
                    assert(ray_mask(f, r, -1, -1).contains(sq_at(f - 1, r - 1)));
                    assert(sliding_mask(s, k).contains(sq_at(f - 1, r - 1)));
                }
            }
        },
    }
}

/// Walks one ray from `from` in direction `d`, collecting attacked squares
/// under occupancy `occ`.
fn walk_ray(from: SQ, d: Direction, occ: BB) -> (res: BB)
    ensures
        res@ == ray_attacks(
            from.spec_index() % 8,
            from.spec_index() / 8,
            d.spec_df(),
            d.spec_dr(),
            occ@,
        ),
{
    let ghost f0 = from.spec_index() % 8;
    let ghost r0 = from.spec_index() / 8;
    let ghost df = d.spec_df();
    let ghost dr = d.spec_dr();
    let mut bb = BB::empty();
    let mut cur = from;
    proof {
        assert(!(df == 0 && dr == 0));
        assert(bb@.union(ray_attacks(f0, r0, df, dr, occ@)) =~= ray_attacks(f0, r0, df, dr, occ@));
    }
    loop
        invariant
            !(df == 0 && dr == 0),
            df == d.spec_df(),
            dr == d.spec_dr(),
            0 <= cur.spec_index() < 64,
            ray_attacks(f0, r0, df, dr, occ@) == bb@.union(
                ray_attacks(cur.spec_index() % 8, cur.spec_index() / 8, df, dr, occ@),
            ),
        ensures
            bb@ == ray_attacks(f0, r0, df, dr, occ@),
        decreases ray_len(cur.spec_index() % 8, cur.spec_index() / 8, df, dr),
    {
        let ghost cf = cur.spec_index() % 8;
        let ghost cr = cur.spec_index() / 8;
        match cur.shift(d) {
            None => {
                proof {
                    assert(ray_attacks(cf, cr, df, dr, occ@) =~= Set::empty());
                    assert(bb@.union(Set::empty()) =~= bb@);
                }
                break ;
            },
            Some(n) => {
                proof {
                    lemma_sq_coords(cf + df, cr + dr);
                    assert(n.spec_index() == sq_at(cf + df, cr + dr));
                }
                bb = bb.with_set(n);
                if occ.is_set(n) {
                    proof {
                        assert(ray_attacks(cf, cr, df, dr, occ@) =~= Set::empty().insert(
                            n.spec_index(),
                        ));
                        assert(bb@ =~= ray_attacks(f0, r0, df, dr, occ@));
                    }
                    break ;
                }
                cur = n;
                proof {
                    assert(ray_attacks(cf, cr, df, dr, occ@) =~= ray_attacks(
                        cur.spec_index() % 8,
                        cur.spec_index() / 8,
                        df,
                        dr,
                        occ@,
                    ).insert(n.spec_index()));
                    assert(ray_attacks(f0, r0, df, dr, occ@) =~= bb@.union(
                        ray_attacks(cur.spec_index() % 8, cur.spec_index() / 8, df, dr, occ@),
                    ));
                }
            },
        }
    }
    bb
}

/// Walks one ray from `from` in direction `d`, collecting every square short
/// of the board's edge: the ray's contribution to the relevant mask.
fn walk_mask_ray(from: SQ, d: Direction) -> (res: BB)
    ensures
        res@ == ray_mask(from.spec_index() % 8, from.spec_index() / 8, d.spec_df(), d.spec_dr()),
{
    let ghost f0 = from.spec_index() % 8;
    let ghost r0 = from.spec_index() / 8;
    let ghost df = d.spec_df();
    let ghost dr = d.spec_dr();
    let mut bb = BB::empty();
    let mut cur = from;
    proof {
        assert(!(df == 0 && dr == 0));
        assert(bb@.union(ray_mask(f0, r0, df, dr)) =~= ray_mask(f0, r0, df, dr));
    }
    loop
        invariant
            !(df == 0 && dr == 0),
            df == d.spec_df(),
            dr == d.spec_dr(),
            0 <= cur.spec_index() < 64,
            ray_mask(f0, r0, df, dr) == bb@.union(
                ray_mask(cur.spec_index() % 8, cur.spec_index() / 8, df, dr),
            ),
        ensures
            bb@ == ray_mask(f0, r0, df, dr),
        decreases ray_len(cur.spec_index() % 8, cur.spec_index() / 8, df, dr),
    {
        let ghost cf = cur.spec_index() % 8;
        let ghost cr = cur.spec_index() / 8;
        match cur.shift(d) {
            None => {
                proof {
                    assert(ray_mask(cf, cr, df, dr) =~= Set::empty());
                    assert(bb@.union(Set::empty()) =~= bb@);
                }
                break ;
            },
            Some(n) => {
                proof {
                    lemma_sq_coords(cf + df, cr + dr);
                    assert(n.spec_index() == sq_at(cf + df, cr + dr));
                }
                match n.shift(d) {
                    None => {
                        proof {
                            assert(ray_mask(cf, cr, df, dr) =~= Set::empty());
                            assert(bb@.union(Set::empty()) =~= bb@);
                        }
                        break ;
                    },
                    Some(_) => {
                        bb = bb.with_set(n);
                        cur = n;
                        proof {
                            assert(ray_mask(cf, cr, df, dr) =~= ray_mask(
                                cur.spec_index() % 8,
                                cur.spec_index() / 8,
                                df,
                                dr,
                            ).insert(n.spec_index()));
                            assert(ray_mask(f0, r0, df, dr) =~= bb@.union(
                                ray_mask(cur.spec_index() % 8, cur.spec_index() / 8, df, dr),
                            ));
                        }
                    },
                }
            },
        }
    }
    bb
}

/// The true attack set of a slider of kind `kind` on `sq` under occupancy
/// `occ`, computed by ray casting. `occ` may be any full-board occupancy;
/// bits off the slider's rays cannot change the result.
pub fn true_attacks(sq: SQ, kind: SlidingKind, occ: BB) -> (res: BB)
    ensures
        res@ == sliding_attacks(sq.spec_index(), kind, occ@),
{
    match kind {
        SlidingKind::Rook => {
            let a = walk_ray(sq, Direction::N, occ);
            let b = walk_ray(sq, Direction::S, occ);
            let c = walk_ray(sq, Direction::E, occ);
            let d = walk_ray(sq, Direction::W, occ);
            let res = a.union(b).union(c).union(d);
            proof {
                assert(res@ =~= sliding_attacks(sq.spec_index(), kind, occ@));
            }
            res
        },
        SlidingKind::Bishop => {
            let a = walk_ray(sq, Direction::NE, occ);
            let b = walk_ray(sq, Direction::NW, occ);
            let c = walk_ray(sq, Direction::SE, occ);
            let d = walk_ray(sq, Direction::SW, occ);
            let res = a.union(b).union(c).union(d);
            proof {
                assert(res@ =~= sliding_attacks(sq.spec_index(), kind, occ@));
            }
            res
        },
    }
}

/// The relevant-occupancy mask of a slider of kind `kind` on `sq`: the
/// squares whose occupancy can influence its attacks.
pub fn relevant_mask(sq: SQ, kind: SlidingKind) -> (res: BB)
    ensures
        res@ == sliding_mask(sq.spec_index(), kind),
{
    match kind {
        SlidingKind::Rook => {
            let a = walk_mask_ray(sq, Direction::N);
            let b = walk_mask_ray(sq, Direction::S);
            let c = walk_mask_ray(sq, Direction::E);
            let d = walk_mask_ray(sq, Direction::W);
            let res = a.union(b).union(c).union(d);
            proof {
                assert(res@ =~= sliding_mask(sq.spec_index(), kind));
            }
            res
        },
        SlidingKind::Bishop => {
            let a = walk_mask_ray(sq, Direction::NE);
            let b = walk_mask_ray(sq, Direction::NW);
            let c = walk_mask_ray(sq, Direction::SE);
            let d = walk_mask_ray(sq, Direction::SW);
            let res = a.union(b).union(c).union(d);
            proof {
                assert(res@ =~= sliding_mask(sq.spec_index(), kind));
            }
            res
        },
    }
}

} // verus!
