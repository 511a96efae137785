//! Between a number and the flags it holds: the positions of its set bits,
//! and the number that a sequence of flags stands for.

use vstd::prelude::*;
use vstd::arithmetic::div_mod::{lemma_div_denominator, lemma_div_non_zero};
use vstd::arithmetic::power2::{lemma2_to64, lemma_pow2_pos, lemma_pow2_unfold, pow2};
use vstd::math::abs;
use crate::bits::{
    bit_at, flags_value, is_set_positions, lemma_flags_value_reads, lemma_no_bit_above,
};
use crate::flag_u128::lemma_bit_u128;

verus! {

/// The positions as mathematical integers.
pub open spec fn as_ints(positions: Seq<i32>) -> Seq<int> {
    positions.map_values(|p: i32| p as int)
}

/// Decomposes a number into the positions of its set bits, in ascending
/// order. A negative number is read by its magnitude.
pub fn get_flags(flags: i32) -> (positions: Vec<i32>)
    ensures
        is_set_positions(abs(flags as int), as_ints(positions@)),
{
    let ghost total = abs(flags as int);
    let mut fvec: Vec<bool> = Vec::new();
    let mut rest = flags;
    proof {
        lemma2_to64();
    }
    while rest != 0
        invariant
            total == abs(flags as int),
            fvec@.len() <= 32,
            abs(rest as int) < pow2((32 - fvec@.len()) as nat),
            abs(rest as int) == total / pow2(fvec@.len()),
            forall|j: int| 0 <= j < fvec@.len() ==> fvec@[j] == bit_at(total, j as nat),
        decreases abs(rest as int),
    {
        proof {
            let done = fvec@.len();
            if done == 32 {
                lemma2_to64();
            }
            lemma_pow2_unfold((32 - done) as nat);
            lemma_pow2_unfold(done + 1);
            lemma_pow2_pos(done);
            lemma_div_denominator(total as int, pow2(done) as int, 2);
            assert(pow2(done) * 2 == pow2(done + 1));
        }
        fvec.push((rest % 2) != 0);
        rest = rest / 2;
    }
    proof {
        let done = fvec@.len();
        lemma_pow2_pos(done);
        if total >= pow2(done) {
            lemma_div_non_zero(total as int, pow2(done) as int);
        }
    }

    let mut tvec: Vec<i32> = Vec::new();
    let mut i: usize = 0;
    while i < fvec.len()
        invariant
            i <= fvec@.len() <= 32,
            forall|j: int, k: int| 0 <= j < k < tvec@.len() ==> tvec@[j] < tvec@[k],
            forall|k: int| 0 <= k < tvec@.len() ==> 0 <= #[trigger] tvec@[k] < i && fvec@[tvec@[k] as int],
            forall|j: int|
                0 <= j < i && #[trigger] fvec@[j] ==> exists|k: int|
                    0 <= k < tvec@.len() && #[trigger] tvec@[k] == j,
        decreases fvec@.len() - i,
    {
        if fvec[i] {
            let ghost before = tvec@;
            tvec.push(i as i32);
            proof {
                assert(tvec@[before.len() as int] == i);
                assert forall|j: int| 0 <= j < i + 1 && #[trigger] fvec@[j] implies exists|k: int|
                    0 <= k < tvec@.len() && #[trigger] tvec@[k] == j by {
                    if j < i {
                        let k = choose|k: int| 0 <= k < before.len() && #[trigger] before[k] == j;
                        assert(tvec@[k] == j);
                    }
                }
            }
        }
        i += 1;
    }
    proof {
        let found = as_ints(tvec@);
        assert forall|x: int| found.contains(x) <==> 0 <= x && bit_at(total, x as nat) by {
            if found.contains(x) {
                let k = choose|k: int| 0 <= k < found.len() && found[k] == x;
                assert(tvec@[k] == x);
            }
            if 0 <= x && bit_at(total, x as nat) {
                if x >= fvec@.len() {
                    lemma_no_bit_above(total, fvec@.len(), x as nat);
                }
                assert(fvec@[x]);
                let k = choose|k: int| 0 <= k < tvec@.len() && #[trigger] tvec@[k] == x;
                assert(found[k] == x);
            }
        }
    }
    tvec
}

/// Composes a sequence of flags into the number whose bit `i` is set where
/// `vec[i]` is true; the bits from the length of the sequence on are clear.
/// No flag may be set from position 128 on: the result has no bit for it.
pub fn vec_to_flag(vec: Vec<bool>) -> (flag: u128)
    requires
        forall|i: int| 128 <= i < vec@.len() ==> !vec@[i],
    ensures
        flag == flags_value(vec@),
{
    let mut flag: u128 = 0;
    let mut i: usize = 0;
    proof {
        assert(vec@.take(0) =~= Seq::<bool>::empty());
    }
    while i < vec.len()
        invariant
            i <= vec@.len(),
            forall|i: int| 128 <= i < vec@.len() ==> !vec@[i],
            flag == flags_value(vec@.take(i as int)),
        decreases vec@.len() - i,
    {
        proof {
            assert(vec@.take(i + 1).drop_last() =~= vec@.take(i as int));
            lemma_flags_value_reads(vec@.take(i as int), i as nat);
        }
        if vec[i] {
            proof {
                lemma_bit_u128(flag, i as u8);
                assert((1u128 << i) == (1u128 << (i as u8))) by (bit_vector)
                    requires
                        i < 128,
                ;
            }
            flag |= 1 << i;
        }
        i += 1;
    }
    proof {
        assert(vec@.take(vec@.len() as int) =~= vec@);
    }
    flag
}

} // verus!
