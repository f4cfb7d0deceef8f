//! Magic bitboards: the randomized search for collision-free multiplicative
//! hashes, the packed per-square attack tables, and the O(1) attack query.

use vstd::prelude::*;

use crate::bitboard::bb_bits;
use crate::bitboard::bit64;
use crate::bitboard::bit_cnt;
use crate::bitboard::lemma_bit64_ops;
use crate::bitboard::BB;
use crate::error::Error;
use crate::rays::lemma_attacks_agree;
use crate::rays::lemma_mask_excludes_origin;
use crate::rays::lemma_mask_nonempty;
use crate::rays::relevant_mask;
use crate::rays::sliding_attacks;
use crate::rays::sliding_mask;
use crate::rays::true_attacks;
use crate::rays::SlidingKind;
use crate::rng::rng_from_seed;
use crate::rng::rng_next;
use crate::square::SQ;
use crate::subsets::lemma_bit_cnt_missing;
use crate::subsets::lemma_bit_cnt_zero;
use crate::subsets::lemma_pow2n_shift;
use crate::subsets::lemma_subset_enumeration;
use crate::subsets::pow2n;
use crate::subsets::spread;
use crate::subsets::subset_at;
use crate::subsets::subset_rank;

verus! {

/// The cap on candidate multipliers tried per square and kind before the
/// build gives up. The hardest squares need a few thousand sparse candidates
/// on average, so the cap leaves generous headroom while still bounding the
/// search.
pub const MAX_TRIALS: u32 = 1_000_000;

/// Per-square, per-kind magic hashing data: the relevant-occupancy mask, the
/// multiplier and shift of the hash, and the square's offset into the shared
/// attack array.
#[derive(Debug, Clone, Copy, PartialEq, Eq, Structural)]
pub struct Magic {
    pub mask: BB,
    pub magic: u64,
    pub shift: u32,
    pub offset: usize,
}

/// Whether `b` is a sub-bitboard of mask `m`.
pub open spec fn masked_sub(b: u64, m: u64) -> bool {
    (b & m) == b
}

/// The table slot the magic hash assigns to masked occupancy `b`.
pub open spec fn magic_index(b: u64, mult: u64, shift: u32) -> int {
    ((((b as nat) * (mult as nat)) % 0x1_0000_0000_0000_0000nat) as u64 >> (shift as u64)) as int
}

/// Soundness of one magic record for square `s` and kind `k` over the flat
/// attack table `tbl`: the mask is the relevant-occupancy mask, and every
/// subset of it hashes within bounds to a slot holding its true attack set.
pub open spec fn magic_ok(m: Magic, s: int, k: SlidingKind, tbl: Seq<BB>) -> bool {
    &&& m.mask@ == sliding_mask(s, k)
    &&& m.shift == 64 - bit_cnt(m.mask.0, 0)
    &&& m.shift < 64
    &&& m.magic != 0
    &&& forall|b: u64|
        #[trigger] masked_sub(b, m.mask.0) ==> {
            &&& 0 <= m.offset + magic_index(b, m.magic, m.shift) < tbl.len()
            &&& tbl[m.offset + magic_index(b, m.magic, m.shift)]@ == sliding_attacks(
                s,
                k,
                bb_bits(b),
            )
        }
}

/// A sound record stays sound when the table grows beyond it.
proof fn lemma_magic_ok_extend(m: Magic, s: int, k: SlidingKind, t1: Seq<BB>, t2: Seq<BB>)
    requires
        magic_ok(m, s, k, t1),
        t2.len() >= t1.len(),
        forall|i: int| 0 <= i < t1.len() ==> t2[i] == t1[i],
    ensures
        magic_ok(m, s, k, t2),
{
    assert forall|b: u64| #[trigger] masked_sub(b, m.mask.0) implies {
        &&& 0 <= m.offset + magic_index(b, m.magic, m.shift) < t2.len()
        &&& t2[m.offset + magic_index(b, m.magic, m.shift)]@ == sliding_attacks(s, k, bb_bits(b))
    } by {
        assert(0 <= m.offset + magic_index(b, m.magic, m.shift) < t1.len());
    }
}

/// A record sound at offset zero over its own entries is sound at the end of
/// a table whose tail is those entries.
proof fn lemma_magic_ok_offset(
    m: Magic,
    m2: Magic,
    s: int,
    k: SlidingKind,
    entries: Seq<BB>,
    tbl: Seq<BB>,
)
    requires
        magic_ok(m, s, k, entries),
        m.offset == 0,
        m2.mask == m.mask,
        m2.magic == m.magic,
        m2.shift == m.shift,
        tbl.len() == m2.offset + entries.len(),
        forall|i: int| 0 <= i < entries.len() ==> tbl[m2.offset + i] == entries[i],
    ensures
        magic_ok(m2, s, k, tbl),
{
    assert forall|b: u64| #[trigger] masked_sub(b, m2.mask.0) implies {
        &&& 0 <= m2.offset + magic_index(b, m2.magic, m2.shift) < tbl.len()
        &&& tbl[m2.offset + magic_index(b, m2.magic, m2.shift)]@ == sliding_attacks(s, k, bb_bits(b))
    } by {
        assert(0 <= m.offset + magic_index(b, m.magic, m.shift) < entries.len());
        let i = magic_index(b, m.magic, m.shift);
        assert(tbl[m2.offset + i] == entries[i]);
    }
}

/// Injectivity-or-consistency: under a sound record, two subsets of the mask
/// that hash to the same table slot have the same true attack set.
pub proof fn lemma_injective_or_consistent(
    m: Magic,
    s: int,
    k: SlidingKind,
    tbl: Seq<BB>,
    b1: u64,
    b2: u64,
)
    requires
        magic_ok(m, s, k, tbl),
        masked_sub(b1, m.mask.0),
        masked_sub(b2, m.mask.0),
        magic_index(b1, m.magic, m.shift) == magic_index(b2, m.magic, m.shift),
    ensures
        sliding_attacks(s, k, bb_bits(b1)) == sliding_attacks(s, k, bb_bits(b2)),
{
}

/// Runs one candidate multiplier over every enumerated subset, using the
/// epoch-tagged scratch table to detect an index collision between subsets
/// whose attack sets differ. Returns whether the candidate is collision-free;
/// on success the scratch table holds each subset's attacks at its hashed
/// slot.
fn try_candidate(
    cand: u64,
    shift: u32,
    occs: &Vec<u64>,
    atts: &Vec<BB>,
    scratch: &mut Vec<BB>,
    epochs: &mut Vec<u32>,
    cur: u32,
) -> (ok: bool)
    requires
        0 < shift < 64,
        occs@.len() == atts@.len(),
        old(scratch)@.len() == occs@.len(),
        old(epochs)@.len() == occs@.len(),
        occs@.len() == pow2n((64 - shift) as nat),
        forall|i: int| 0 <= i < occs@.len() ==> old(epochs)@[i] < cur,
    ensures
        final(scratch)@.len() == occs@.len(),
        final(epochs)@.len() == occs@.len(),
        forall|i: int| 0 <= i < occs@.len() ==> final(epochs)@[i] <= cur,
        ok ==> forall|jj: int|
            0 <= jj < occs@.len() ==> 0 <= #[trigger] magic_index(occs@[jj], cand, shift)
                < occs@.len() && final(scratch)@[magic_index(occs@[jj], cand, shift)] == atts@[jj],
        !ok ==> exists|j1: int, j2: int|
            0 <= j1 < j2 < occs@.len() && #[trigger] magic_index(occs@[j1], cand, shift)
                == #[trigger] magic_index(occs@[j2], cand, shift) && atts@[j1] != atts@[j2],
{
    let n = occs.len();
    let mut j: usize = 0;
    while j < n
        invariant
            0 < shift < 64,
            n == occs@.len(),
            occs@.len() == atts@.len(),
            scratch@.len() == occs@.len(),
            epochs@.len() == occs@.len(),
            occs@.len() == pow2n((64 - shift) as nat),
            j <= n,
            forall|i: int| 0 <= i < occs@.len() ==> epochs@[i] <= cur,
            forall|jj: int|
                0 <= jj < j ==> 0 <= #[trigger] magic_index(occs@[jj], cand, shift) < occs@.len()
                    && epochs@[magic_index(occs@[jj], cand, shift)] == cur && scratch@[magic_index(
                    occs@[jj],
                    cand,
                    shift,
                )] == atts@[jj],
            forall|i: int|
                0 <= i < occs@.len() && epochs@[i] == cur ==> exists|jj: int|
                    0 <= jj < j && #[trigger] magic_index(occs@[jj], cand, shift) == i && scratch@[
                    i] == atts@[jj],
        decreases n - j,
    {
        let wm = BB(occs[j]).mul_wrap(cand);
        let sh64: u64 = shift as u64;
        let idx64: u64 = wm >> sh64;
        proof {
            let k64: u64 = (64 - shift) as u64;
            assert(wm >> sh64 < 1u64 << k64) by (bit_vector)
                requires
                    0 < sh64 < 64,
                    k64 == 64 - sh64,
            ;
            lemma_pow2n_shift((64 - shift) as nat);
        }
        let idx = idx64 as usize;
        proof {
            assert(idx as int == magic_index(occs@[j as int], cand, shift));
            assert(0 <= idx < occs@.len());
        }
        if epochs[idx] == cur {
            if scratch[idx] != atts[j] {
                proof {
                    let jj = choose|jj: int|
                        0 <= jj < j && magic_index(occs@[jj], cand, shift) == idx as int
                            && scratch@[idx as int] == atts@[jj];
                    assert(0 <= jj < j as int && magic_index(occs@[jj], cand, shift)
                        == magic_index(occs@[j as int], cand, shift) && atts@[jj] != atts@[
                    j as int]);
                }
                return false;
            }
            proof {
                assert forall|i: int|
                    0 <= i < occs@.len() && epochs@[i] == cur implies exists|jj: int|
                    0 <= jj < j + 1 && magic_index(occs@[jj], cand, shift) == i && scratch@[i]
                        == atts@[jj] by {
                    let jj = choose|jj: int|
                        0 <= jj < j && magic_index(occs@[jj], cand, shift) == i && scratch@[i]
                            == atts@[jj];
                    assert(0 <= jj < j + 1 && magic_index(occs@[jj], cand, shift) == i && scratch@[
                    i] == atts@[jj]);
                }
            }
        } else {
            proof {
                assert forall|jj: int| 0 <= jj < j implies magic_index(occs@[jj], cand, shift)
                    != idx as int by {
                    assert(epochs@[magic_index(occs@[jj], cand, shift)] == cur);
                }
            }
            let ghost old_scratch = scratch@;
            let ghost old_epochs = epochs@;
            scratch[idx] = atts[j];
            epochs[idx] = cur;
            proof {
                assert forall|i: int|
                    0 <= i < occs@.len() && epochs@[i] == cur implies exists|jj: int|
                    0 <= jj < j + 1 && magic_index(occs@[jj], cand, shift) == i && scratch@[i]
                        == atts@[jj] by {
                    if i == idx as int {
                        assert(magic_index(occs@[j as int], cand, shift) == i && scratch@[i]
                            == atts@[j as int]);
                    } else {
                        let jj = choose|jj: int|
                            0 <= jj < j && magic_index(occs@[jj], cand, shift) == i && old_scratch[i]
                                == atts@[jj];
                        assert(0 <= jj < j + 1 && magic_index(occs@[jj], cand, shift) == i
                            && scratch@[i] == atts@[jj]);
                    }
                }
            }
        }
        j = j + 1;
    }
    true
}

/// Searches for a collision-free magic multiplier for `sq` and `kind`,
/// drawing candidates from `rng`. On success the record (with offset zero)
/// is sound over the returned entries; the search fails only by exhausting
/// the trial cap.
fn find_magic(sq: SQ, kind: SlidingKind, rng: &mut rand::rngs::StdRng) -> (r: Result<
    (Magic, Vec<BB>),
    Error,
>)
    ensures
        r matches Ok(p) ==> magic_ok(p.0, sq.spec_index(), kind, p.1@) && p.0.offset == 0,
        r matches Err(e) ==> e == Error::SearchExhausted,
{
    let s = sq.to_index();
    let mask = relevant_mask(sq, kind);
    let kbits = mask.pop_count();
    proof {
        lemma_mask_nonempty(s as int, kind);
        let x = choose|x: int| sliding_mask(s as int, kind).contains(x);
        assert(bb_bits(mask.0).contains(x));
        if bit_cnt(mask.0, 0) == 0 {
            lemma_bit_cnt_zero(mask.0, 0);
            assert(!bit64(mask.0, x as u64));
        }
        lemma_mask_excludes_origin(s as int, kind);
        assert(!bb_bits(mask.0).contains(s as int));
        lemma_bit_cnt_missing(mask.0, 0, s as u64);
    }
    if kbits > 16 {
        // Sliding-piece masks never exceed 12 bits; this guard only keeps the
        // table size below machine limits on every platform.
        return Err(Error::SearchExhausted);
    }
    proof {
        lemma_pow2n_shift(bit_cnt(mask.0, 0));
        assert(1u64 << (kbits as u64) <= 0x10000u64) by (bit_vector)
            requires
                kbits <= 16u32,
        ;
    }
    let n64: u64 = 1u64 << (kbits as u64);
    let n: usize = n64 as usize;
    let mut occs: Vec<u64> = Vec::new();
    let mut atts: Vec<BB> = Vec::new();
    let mut j: usize = 0;
    while j < n
        invariant
            n == pow2n(bit_cnt(mask.0, 0)),
            mask@ == sliding_mask(s as int, kind),
            s == sq.spec_index(),
            occs@.len() == j,
            atts@.len() == j,
            j <= n,
            forall|jj: int| 0 <= jj < j ==> occs@[jj] == spread(jj as nat, mask.0, 0),
            forall|jj: int|
                0 <= jj < j ==> atts@[jj]@ == sliding_attacks(s as int, kind, bb_bits(occs@[jj])),
        decreases n - j,
    {
        let sub = subset_at(j, mask.0);
        let att = true_attacks(sq, kind, BB(sub));
        occs.push(sub);
        atts.push(att);
        j = j + 1;
    }
    let shift: u32 = 64 - kbits;
    let mut scratch: Vec<BB> = Vec::new();
    let mut epochs: Vec<u32> = Vec::new();
    let mut i: usize = 0;
    while i < n
        invariant
            scratch@.len() == i,
            epochs@.len() == i,
            i <= n,
            forall|ii: int| 0 <= ii < i ==> epochs@[ii] == 0,
        decreases n - i,
    {
        scratch.push(BB(0));
        epochs.push(0);
        i = i + 1;
    }
    let mut t: u32 = 0;
    while t < MAX_TRIALS
        invariant
            0 < shift < 64,
            t <= MAX_TRIALS,
            n == pow2n((64 - shift) as nat),
            n == pow2n(bit_cnt(mask.0, 0)),
            bit_cnt(mask.0, 0) == 64 - shift,
            mask@ == sliding_mask(s as int, kind),
            s == sq.spec_index(),
            occs@.len() == n,
            atts@.len() == n,
            scratch@.len() == n,
            epochs@.len() == n,
            forall|jj: int| 0 <= jj < n ==> occs@[jj] == spread(jj as nat, mask.0, 0),
            forall|jj: int|
                0 <= jj < n ==> atts@[jj]@ == sliding_attacks(s as int, kind, bb_bits(occs@[jj])),
            forall|ii: int| 0 <= ii < n ==> epochs@[ii] <= t,
        decreases MAX_TRIALS - t,
    {
        let d1 = rng_next(rng);
        let d2 = rng_next(rng);
        let d3 = rng_next(rng);
        // anding three draws biases the candidate toward sparse bit patterns,
        // which shortens the search; a zero candidate can never separate two
        // subsets, so it is skipped outright
        let cand: u64 = d1 & d2 & d3;
        if cand == 0 {
            t = t + 1;
            continue ;
        }
        let cur: u32 = t + 1;
        let ok = try_candidate(cand, shift, &occs, &atts, &mut scratch, &mut epochs, cur);
        if ok {
            let m = Magic { mask, magic: cand, shift, offset: 0 };
            proof {
                assert forall|b: u64| #[trigger] masked_sub(b, m.mask.0) implies {
                    &&& 0 <= m.offset + magic_index(b, m.magic, m.shift) < scratch@.len()
                    &&& scratch@[m.offset + magic_index(b, m.magic, m.shift)]@ == sliding_attacks(
                        s as int,
                        kind,
                        bb_bits(b),
                    )
                } by {
                    lemma_subset_enumeration(b, mask.0);
                    let jj = subset_rank(b, mask.0, 0);
                    assert(occs@[jj as int] == spread(jj, mask.0, 0));
                    assert(occs@[jj as int] == b);
                    assert(0 <= magic_index(occs@[jj as int], cand, shift) < n);
                    assert(scratch@[magic_index(occs@[jj as int], cand, shift)] == atts@[
                    jj as int]);
                }
                assert(magic_ok(m, s as int, kind, scratch@));
            }
            return Ok((m, scratch));
        }
        t = t + 1;
    }
    Err(Error::SearchExhausted)
}

/// The complete magic-bitboard artifact: 64 records per sliding kind and the
/// two flat attack arrays they index.
pub struct AttackTable {
    pub rook_magics: Vec<Magic>,
    pub bishop_magics: Vec<Magic>,
    pub rook_attacks: Vec<BB>,
    pub bishop_attacks: Vec<BB>,
}

impl AttackTable {
    /// Soundness of the whole artifact: every record of either kind is sound
    /// over its kind's attack array.
    pub open spec fn wf(self) -> bool {
        &&& self.rook_magics@.len() == 64
        &&& self.bishop_magics@.len() == 64
        &&& forall|s: int|
            0 <= s < 64 ==> magic_ok(
                #[trigger] self.rook_magics@[s],
                s,
                SlidingKind::Rook,
                self.rook_attacks@,
            )
        &&& forall|s: int|
            0 <= s < 64 ==> magic_ok(
                #[trigger] self.bishop_magics@[s],
                s,
                SlidingKind::Bishop,
                self.bishop_attacks@,
            )
    }

    /// The O(1) attack query: for any full-board occupancy, returns exactly
    /// the ray-cast attack set of a slider of `kind` on `sq`.
    pub fn attacks(&self, sq: SQ, kind: SlidingKind, occ: BB) -> (res: BB)
        requires
            self.wf(),
        ensures
            res@ == sliding_attacks(sq.spec_index(), kind, occ@),
    {
        let s = sq.to_index();
        let rec = match kind {
            SlidingKind::Rook => self.rook_magics[s],
            SlidingKind::Bishop => self.bishop_magics[s],
        };
        let ghost tbl: Seq<BB> = match kind {
            SlidingKind::Rook => self.rook_attacks@,
            SlidingKind::Bishop => self.bishop_attacks@,
        };
        let tlen = match kind {
            SlidingKind::Rook => self.rook_attacks.len(),
            SlidingKind::Bishop => self.bishop_attacks.len(),
        };
        let masked = occ.0 & rec.mask.0;
        let wm = BB(masked).mul_wrap(rec.magic);
        let idx64: u64 = wm >> (rec.shift as u64);
        proof {
            let o = occ.0;
            let mk = rec.mask.0;
            assert((o & mk) & mk == o & mk) by (bit_vector);
            assert(masked_sub(masked, rec.mask.0));
            assert(magic_ok(rec, s as int, kind, tbl));
            assert(0 <= rec.offset + magic_index(masked, rec.magic, rec.shift) < tbl.len());
            assert(idx64 as int == magic_index(masked, rec.magic, rec.shift));
            lemma_bit64_ops();
            assert forall|x: int| #[trigger] sliding_mask(s as int, kind).contains(x) implies
                bb_bits(masked).contains(x) == occ@.contains(x) by {
                assert(rec.mask@.contains(x));
            }
            lemma_attacks_agree(s as int, kind, bb_bits(masked), occ@);
        }
        let idx = idx64 as usize;
        match kind {
            SlidingKind::Rook => self.rook_attacks[rec.offset + idx],
            SlidingKind::Bishop => self.bishop_attacks[rec.offset + idx],
        }
    }
}

/// Builds the 64 records and flat attack array of one sliding kind,
/// recording each square's offset as the running length of the array.
#[verifier::rlimit(100)]
fn build_kind(kind: SlidingKind, rng: &mut rand::rngs::StdRng) -> (r: Result<
    (Vec<Magic>, Vec<BB>),
    Error,
>)
    ensures
        r matches Ok(p) ==> p.0@.len() == 64 && forall|ss: int|
            0 <= ss < 64 ==> magic_ok(#[trigger] p.0@[ss], ss, kind, p.1@),
        r matches Err(e) ==> e == Error::SearchExhausted,
{
    let mut magics: Vec<Magic> = Vec::new();
    let mut attacks: Vec<BB> = Vec::new();
    let mut s: usize = 0;
    while s < 64
        invariant
            magics@.len() == s,
            s <= 64,
            forall|ss: int| 0 <= ss < s ==> magic_ok(#[trigger] magics@[ss], ss, kind, attacks@),
        decreases 64 - s,
    {
        let sqv = SQ::from_index(s);
        match find_magic(sqv, kind, rng) {
            Err(_) => {
                return Err(Error::SearchExhausted);
            },
            Ok((m, mut entries)) => {
                let offset = attacks.len();
                let m2 = Magic { mask: m.mask, magic: m.magic, shift: m.shift, offset };
                let ghost old_tbl = attacks@;
                let ghost ent = entries@;
                attacks.append(&mut entries);
                proof {
                    assert forall|ss: int| 0 <= ss < s implies magic_ok(
                        #[trigger] magics@[ss],
                        ss,
                        kind,
                        attacks@,
                    ) by {
                        lemma_magic_ok_extend(magics@[ss], ss, kind, old_tbl, attacks@);
                    }
                    lemma_magic_ok_offset(m, m2, s as int, kind, ent, attacks@);
                }
                magics.push(m2);
            },
        }
        s = s + 1;
    }
    Ok((magics, attacks))
}

/// Builds the complete attack artifact: for each square and sliding kind,
/// searches for a magic multiplier and packs the per-square tables into one
/// flat array per kind. Reproducible for a fixed `seed`; fails only if some
/// square's search exhausts the trial cap.
pub fn generate_magics(seed: u64) -> (r: Result<AttackTable, Error>)
    ensures
        r matches Ok(t) ==> t.wf(),
        r matches Err(e) ==> e == Error::SearchExhausted,
{
    let mut rng = rng_from_seed(seed);
    let (rook_magics, rook_attacks) = match build_kind(SlidingKind::Rook, &mut rng) {
        Err(_) => {
            return Err(Error::SearchExhausted);
        },
        Ok(p) => p,
    };
    let (bishop_magics, bishop_attacks) = match build_kind(SlidingKind::Bishop, &mut rng) {
        Err(_) => {
            return Err(Error::SearchExhausted);
        },
        Ok(p) => p,
    };
    Ok(AttackTable { rook_magics, bishop_magics, rook_attacks, bishop_attacks })
}

} // verus!
