//! The bitboard primitive: a 64-bit set over board squares, with its
//! bit-level specification machinery.

use vstd::prelude::*;

use crate::square::SQ;

verus! {

/// True when bit `i` of `b` is set.
pub open spec fn bit64(b: u64, i: u64) -> bool {
    i < 64 && (b >> i) & 1u64 == 1u64
}

/// Membership of square index `i` in the bitboard value `b`.
pub open spec fn bb_bit(b: u64, i: int) -> bool {
    0 <= i < 64 && bit64(b, i as u64)
}

/// The set of square indices whose bits are set in `b`; the mathematical
/// model of a bitboard.
pub open spec fn bb_bits(b: u64) -> Set<int> {
    Set::new(|i: int| bb_bit(b, i))
}

/// The set of all 64 square indices.
pub open spec fn board_set() -> Set<int> {
    Set::new(|i: int| 0 <= i < 64)
}

/// The number of set bits of `b` at positions `p` and above.
pub open spec fn bit_cnt(b: u64, p: nat) -> nat
    decreases 64 - p,
{
    if p >= 64 {
        0
    } else {
        (if bit64(b, p as u64) {
            1nat
        } else {
            0nat
        }) + bit_cnt(b, (p + 1) as nat)
    }
}

/// How the basic bitwise operations act on single bits.
pub proof fn lemma_bit64_ops()
    by (bit_vector)
    ensures
        forall|a: u64, b: u64, i: u64| #[trigger] bit64(a | b, i) == (bit64(a, i) || bit64(b, i)),
        forall|a: u64, b: u64, i: u64| #[trigger] bit64(a & b, i) == (bit64(a, i) && bit64(b, i)),
        forall|a: u64, b: u64, i: u64| #[trigger] bit64(a ^ b, i) == (bit64(a, i) != bit64(b, i)),
        forall|a: u64, i: u64| i < 64 ==> #[trigger] bit64(!a, i) == !bit64(a, i),
        forall|j: u64, i: u64| j < 64 ==> (#[trigger] bit64(1u64 << j, i) == (i == j)),
        forall|i: u64| !bit64(0u64, i),
{
}

/// A bitboard: a 64-bit set of board squares, bit `i` standing for the square
/// of index `i`. Its view is the set of member indices.
#[derive(Debug, Clone, Copy, PartialEq, Eq, PartialOrd, Ord, Structural)]
pub struct BB(pub u64);

impl View for BB {
    type V = Set<int>;

    open spec fn view(&self) -> Set<int> {
        bb_bits(self.0)
    }
}

impl BB {
    /// The empty bitboard.
    pub fn empty() -> (r: BB)
        ensures
            r@ == Set::<int>::empty(),
            r.0 == 0,
    {
        let r = BB(0);
        proof {
            lemma_bit64_ops();
            assert(r@ =~= Set::<int>::empty());
        }
        r
    }

    /// The bitboard holding every square.
    pub fn full() -> (r: BB)
        ensures
            r@ == board_set(),
            r.0 == 0xFFFF_FFFF_FFFF_FFFF,
    {
        let r = BB(0xFFFF_FFFF_FFFF_FFFF);
        proof {
            assert(forall|i: u64| i < 64 ==> #[trigger] bit64(0xFFFF_FFFF_FFFF_FFFFu64, i))
                by (bit_vector);
            assert(r@ =~= board_set());
        }
        r
    }

    /// The bitboard holding exactly `sq`.
    pub fn from_sq(sq: SQ) -> (r: Self)
        ensures
            r@ == Set::empty().insert(sq.spec_index()),
    {
        let r = BB(1u64 << (sq.to_index() as u64));
        proof {
            lemma_bit64_ops();
            assert(r@ =~= Set::empty().insert(sq.spec_index()));
        }
        r
    }

    /// This bitboard with `sq` added.
    pub fn with_set(self, sq: SQ) -> (r: Self)
        ensures
            r@ == self@.insert(sq.spec_index()),
    {
        let r = BB(self.0 | (1u64 << (sq.to_index() as u64)));
        proof {
            lemma_bit64_ops();
            assert(r@ =~= self@.insert(sq.spec_index()));
        }
        r
    }

    /// This bitboard with `sq` removed.
    pub fn with_clear(self, sq: SQ) -> (r: Self)
        ensures
            r@ == self@.remove(sq.spec_index()),
    {
        let r = BB(self.0 & !(1u64 << (sq.to_index() as u64)));
        proof {
            lemma_bit64_ops();
            assert(r@ =~= self@.remove(sq.spec_index()));
        }
        r
    }

    /// Whether `sq` is a member.
    pub fn is_set(self, sq: SQ) -> (r: bool)
        ensures
            r == self@.contains(sq.spec_index()),
    {
        let i = sq.to_index() as u64;
        let r = (self.0 >> i) & 1u64 == 1u64;
        r
    }

    /// Set union.
    pub fn union(self, other: BB) -> (r: BB)
        ensures
            r@ == self@.union(other@),
    {
        let r = BB(self.0 | other.0);
        proof {
            lemma_bit64_ops();
            assert(r@ =~= self@.union(other@));
        }
        r
    }

    /// Set intersection.
    pub fn intersect(self, other: BB) -> (r: BB)
        ensures
            r@ == self@.intersect(other@),
    {
        let r = BB(self.0 & other.0);
        proof {
            lemma_bit64_ops();
            assert(r@ =~= self@.intersect(other@));
        }
        r
    }

    /// Symmetric difference.
    pub fn xor(self, other: BB) -> (r: BB)
        ensures
            r@ == self@.union(other@).difference(self@.intersect(other@)),
    {
        let r = BB(self.0 ^ other.0);
        proof {
            lemma_bit64_ops();
            assert(r@ =~= self@.union(other@).difference(self@.intersect(other@)));
        }
        r
    }

    /// Complement within the board.
    pub fn complement(self) -> (r: BB)
        ensures
            r@ == board_set().difference(self@),
    {
        let r = BB(!self.0);
        proof {
            lemma_bit64_ops();
            assert forall|i: int| r@.contains(i) <==> board_set().difference(self@).contains(
                i,
            ) by {
                if 0 <= i < 64 {
                    assert(bit64(!self.0, i as u64) == !bit64(self.0, i as u64));
                }
            }
            assert(r@ =~= board_set().difference(self@));
        }
        r
    }

    /// The number of member squares.
    pub fn pop_count(self) -> (r: u32)
        ensures
            r == bit_cnt(self.0, 0),
    {
        let mut acc: u32 = 0;
        let mut i: u64 = 0;
        while i < 64
            invariant
                i <= 64,
                acc <= i,
                acc + bit_cnt(self.0, i as nat) == bit_cnt(self.0, 0),
            decreases 64 - i,
        {
            if (self.0 >> i) & 1u64 == 1u64 {
                acc = acc + 1;
            }
            i = i + 1;
        }
        acc
    }

    /// The member square of least index, if any.
    pub fn lsb_sq(self) -> (r: Option<SQ>)
        ensures
            self.0 == 0 ==> r is None,
            self.0 != 0 ==> (r matches Some(s) && self@.contains(s.spec_index()) && forall|j: int|
                self@.contains(j) ==> s.spec_index() <= j),
    {
        if self.0 == 0 {
            None
        } else {
            proof {
                vstd::std_specs::bits::axiom_u64_trailing_zeros(self.0);
            }
            let tz = self.0.trailing_zeros();
            let s = SQ::from_index(tz as usize);
            proof {
                assert forall|j: int| self@.contains(j) implies s.spec_index() <= j by {
                    if j < tz {
                        assert((self.0 >> (j as u64)) & 1u64 == 0u64);
                    }
                }
            }
            Some(s)
        }
    }

    /// One step of the destructive ascending scan: removes and returns the
    /// least member square, or returns `None` on the empty bitboard.
    pub fn next_sq(&mut self) -> (r: Option<SQ>)
        ensures
            old(self).0 == 0 ==> r is None && *final(self) == *old(self),
            old(self).0 != 0 ==> (r matches Some(s) && old(self)@.contains(s.spec_index()) && (
            forall|j: int| old(self)@.contains(j) ==> s.spec_index() <= j) && final(self)@ == old(
                self,
            )@.remove(s.spec_index())),
    {
        match self.lsb_sq() {
            None => None,
            Some(s) => {
                *self = self.with_clear(s);
                Some(s)
            },
        }
    }

    /// The raw integer product of this bitboard's 64-bit value and `rhs`,
    /// wrapping on overflow. This is the magic-hashing multiply, deliberately
    /// kept apart from the set algebra.
    pub fn mul_wrap(self, rhs: u64) -> (r: u64)
        ensures
            r == ((self.0 as nat * rhs as nat) % 0x1_0000_0000_0000_0000nat) as u64,
    {
        self.0.wrapping_mul(rhs)
    }
}

} // verus!
