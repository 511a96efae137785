//! Thirty-two flags in a `u32`.

use vstd::prelude::*;
use vstd::arithmetic::power2::{lemma2_to64, lemma_pow2_unfold, pow2};
use vstd::bits::lemma_u32_shr_is_div;
use crate::bit_flag::BitFlag;
use crate::bits::{
    bit_at, bits_of, flags_value, lemma_overlay_all, lemma_overlay_next, lemma_overlay_none,
    overlay, with_bit,
};

verus! {

/// How the mask of one bit acts on a `u32`.
proof fn lemma_mask_u32(x: u32, p: u8)
    by (bit_vector)
    requires
        p < 32,
    ensures
        ((x & (1u32 << p)) != 0) == ((x >> (p as u32)) % 2 == 1),
        (x & (1u32 << p)) != 0 ==> (x | (1u32 << p)) == x,
        (x & (1u32 << p)) == 0 ==> (x | (1u32 << p)) == x + (1u32 << p),
        (x & (1u32 << p)) == 0 ==> (x & !(1u32 << p)) == x,
        (x & (1u32 << p)) != 0 ==> (x & !(1u32 << p)) == x - (1u32 << p),
{
}

/// Shifting one to the left doubles it for each step.
proof fn lemma_double_u32(p: u8, q: u8)
    by (bit_vector)
    requires
        q < 31,
        p == q + 1,
    ensures
        (1u32 << 0u8) == 1,
        (1u32 << p) == 2 * (1u32 << q),
{
}

/// The mask of bit `p` is `2^p`.
proof fn lemma_one_shl_u32(p: u8)
    requires
        p < 32,
    ensures
        (1u32 << p) == pow2(p as nat),
    decreases p,
{
    if p == 0 {
        lemma_double_u32(1, 0);
        lemma2_to64();
    } else {
        let q = (p - 1) as u8;
        lemma_one_shl_u32(q);
        lemma_double_u32(p, q);
        lemma_pow2_unfold(p as nat);
    }
}

/// Mask, shift and number agree on bit `p` of a `u32`.
proof fn lemma_bit_u32(x: u32, p: u8)
    requires
        p < 32,
    ensures
        ((x & (1u32 << p)) != 0) == bit_at(x as nat, p as nat),
        (1u32 << p) == pow2(p as nat),
        (x | (1u32 << p)) == with_bit(x as nat, p as nat, true),
        (x & !(1u32 << p)) == with_bit(x as nat, p as nat, false),
{
    lemma_mask_u32(x, p);
    lemma_one_shl_u32(p);
    lemma_u32_shr_is_div(x, p as u32);
}

/// implementation for u32: 32 flags, 1 flag per bit.
impl BitFlag for u32 {
    type T = [bool; 32];

    open spec fn width() -> nat {
        32
    }

    open spec fn value(&self) -> nat {
        *self as nat
    }

    open spec fn flags_view(flags: [bool; 32]) -> Seq<bool> {
        flags@
    }

    proof fn lemma_value_fits(&self) {
        lemma2_to64();
    }

    proof fn lemma_value_determines(&self, other: &Self) {
    }

    fn set_flag(&mut self, position: u8, value: bool) {
        proof {
            lemma_bit_u32(*self, position);
        }
        if value {
            *self |= 1 << position;
        } else {
            *self &= !(1 << position);
        }
    }

    fn get_flag(&self, position: u8) -> (flag: bool) {
        proof {
            lemma_bit_u32(*self, position);
        }
        (*self & (1 << position)) != 0
    }

    fn flags(&self) -> (flags: [bool; 32]) {
        let mut flags = [false; 32];
        let mut i: usize = 0;
        while i < 32
            invariant
                i <= 32,
                forall|j: int| 0 <= j < i ==> flags@[j] == bit_at(self.value(), j as nat),
            decreases 32 - i,
        {
            flags[i] = self.get_flag(i as u8);
            i += 1;
        }
        assert(flags@ =~= bits_of(self.value(), 32));
        flags
    }

    fn set_flags(&mut self, flags: &[bool]) {
        let ghost start = self.value();
        proof {
            lemma2_to64();
            lemma_overlay_none(start, 32);
            assert(flags@.take(0) =~= Seq::<bool>::empty());
        }
        let mut i: usize = 0;
        while i < flags.len() && i < 32
            invariant
                i <= flags@.len(),
                i <= 32,
                self.value() == flags_value(overlay(bits_of(start, 32), flags@.take(i as int))),
            decreases flags@.len() - i,
        {
            proof {
                lemma_overlay_next(start, 32, flags@, i as nat);
            }
            self.set_flag(i as u8, flags[i]);
            i += 1;
        }
        proof {
            lemma_overlay_all(start, 32, flags@, i as nat);
        }
    }
}

} // verus!
