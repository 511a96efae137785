//! Eight flags in a `u8`.

use vstd::prelude::*;
use vstd::arithmetic::power2::{lemma2_to64, lemma_pow2_unfold, pow2};
use vstd::bits::lemma_u8_shr_is_div;
use crate::bit_flag::BitFlag;
use crate::bits::{
    bit_at, bits_of, flags_value, lemma_overlay_all, lemma_overlay_next, lemma_overlay_none,
    overlay, with_bit,
};

verus! {

/// How the mask of one bit acts on a `u8`.
proof fn lemma_mask_u8(x: u8, p: u8)
    by (bit_vector)
    requires
        p < 8,
    ensures
        ((x & (1u8 << p)) != 0) == ((x >> p) % 2 == 1),
        (x & (1u8 << p)) != 0 ==> (x | (1u8 << p)) == x,
        (x & (1u8 << p)) == 0 ==> (x | (1u8 << p)) == x + (1u8 << p),
        (x & (1u8 << p)) == 0 ==> (x & !(1u8 << p)) == x,
        (x & (1u8 << p)) != 0 ==> (x & !(1u8 << p)) == x - (1u8 << p),
{
}

/// Shifting one to the left doubles it for each step.
proof fn lemma_double_u8(p: u8, q: u8)
    by (bit_vector)
    requires
        q < 7,
        p == q + 1,
    ensures
        (1u8 << 0u8) == 1,
        (1u8 << p) == 2 * (1u8 << q),
{
}

/// The mask of bit `p` is `2^p`.
proof fn lemma_one_shl_u8(p: u8)
    requires
        p < 8,
    ensures
        (1u8 << p) == pow2(p as nat),
    decreases p,
{
    if p == 0 {
        lemma_double_u8(1, 0);
        lemma2_to64();
    } else {
        let q = (p - 1) as u8;
        lemma_one_shl_u8(q);
        lemma_double_u8(p, q);
        lemma_pow2_unfold(p as nat);
    }
}

/// Mask, shift and number agree on bit `p` of a `u8`.
proof fn lemma_bit_u8(x: u8, p: u8)
    requires
        p < 8,
    ensures
        ((x & (1u8 << p)) != 0) == bit_at(x as nat, p as nat),
        (1u8 << p) == pow2(p as nat),
        (x | (1u8 << p)) == with_bit(x as nat, p as nat, true),
        (x & !(1u8 << p)) == with_bit(x as nat, p as nat, false),
{
    lemma_mask_u8(x, p);
    lemma_one_shl_u8(p);
    lemma_u8_shr_is_div(x, p);
}

/// implementation for u8. u8 means it can store 8 flags 1 flag per bit.
impl BitFlag for u8 {
    type T = [bool; 8];

    open spec fn width() -> nat {
        8
    }

    open spec fn value(&self) -> nat {
        *self as nat
    }

    open spec fn flags_view(flags: [bool; 8]) -> Seq<bool> {
        flags@
    }

    proof fn lemma_value_fits(&self) {
        lemma2_to64();
    }

    proof fn lemma_value_determines(&self, other: &Self) {
    }

    fn set_flag(&mut self, position: u8, value: bool) {
        proof {
            lemma_bit_u8(*self, position);
        }
        if value {
            *self |= 1 << position;
        } else {
            *self &= !(1 << position);
        }
    }

    fn get_flag(&self, position: u8) -> (flag: bool) {
        proof {
            lemma_bit_u8(*self, position);
        }
        (*self & (1 << position)) != 0
    }

    fn flags(&self) -> (flags: [bool; 8]) {
        let mut flags = [false; 8];
        let mut i: usize = 0;
        while i < 8
            invariant
                i <= 8,
                forall|j: int| 0 <= j < i ==> flags@[j] == bit_at(self.value(), j as nat),
            decreases 8 - i,
        {
            flags[i] = self.get_flag(i as u8);
            i += 1;
        }
        assert(flags@ =~= bits_of(self.value(), 8));
        flags
    }

    fn set_flags(&mut self, flags: &[bool]) {
        let ghost start = self.value();
        proof {
            lemma2_to64();
            lemma_overlay_none(start, 8);
            assert(flags@.take(0) =~= Seq::<bool>::empty());
        }
        let mut i: usize = 0;
        while i < flags.len() && i < 8
            invariant
                i <= flags@.len(),
                i <= 8,
                self.value() == flags_value(overlay(bits_of(start, 8), flags@.take(i as int))),
            decreases flags@.len() - i,
        {
            proof {
                lemma_overlay_next(start, 8, flags@, i as nat);
            }
            self.set_flag(i as u8, flags[i]);
            i += 1;
        }
        proof {
            lemma_overlay_all(start, 8, flags@, i as nat);
        }
    }
}

} // verus!
