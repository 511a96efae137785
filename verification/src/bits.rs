//! Flags as binary digits of a natural number.
//!
//! Bit `i` of `n` is the digit of weight `2^i`. Everything the library says
//! about a word of flags, of whatever width, it says through these functions.

use vstd::prelude::*;
use vstd::arithmetic::div_mod::{lemma_basic_div, lemma_div_denominator};
use vstd::arithmetic::power2::{
    lemma_pow2_pos, lemma_pow2_strictly_increases, lemma_pow2_unfold, pow2,
};

verus! {

/// Whether bit `i` of `n` is set.
pub open spec fn bit_at(n: nat, i: nat) -> bool {
    (n / pow2(i)) % 2 == 1
}

/// What a flag at position `i` adds to the value: `2^i` when set, nothing
/// when clear.
pub open spec fn weight(flag: bool, i: nat) -> nat {
    if flag {
        pow2(i)
    } else {
        0
    }
}

/// `n` with bit `i` made equal to `flag` and every other bit as it was.
pub open spec fn with_bit(n: nat, i: nat, flag: bool) -> nat {
    (n - weight(bit_at(n, i), i) + weight(flag, i)) as nat
}

/// The low `width` bits of `n`, bit 0 first.
pub open spec fn bits_of(n: nat, width: nat) -> Seq<bool> {
    Seq::new(width, |i: int| bit_at(n, i as nat))
}

/// The number whose bit `i` is `flags[i]`, with no bit set from
/// `flags.len()` on.
pub open spec fn flags_value(flags: Seq<bool>) -> nat
    decreases flags.len(),
{
    if flags.len() == 0 {
        0
    } else {
        flags_value(flags.drop_last()) + weight(flags.last(), (flags.len() - 1) as nat)
    }
}

/// `bits` with its first positions replaced by `flags`: what is left of
/// `flags` beyond `bits.len()` is dropped, and where `flags` is shorter the
/// rest of `bits` stays.
pub open spec fn overlay(bits: Seq<bool>, flags: Seq<bool>) -> Seq<bool> {
    Seq::new(
        bits.len(),
        |i: int|
            if i < flags.len() {
                flags[i]
            } else {
                bits[i]
            },
    )
}

/// The flags that are set once each of `positions` was set among `width`
/// clear flags: flag `i` is set where `i` is one of the positions.
pub open spec fn flags_at(positions: Seq<u8>, width: nat) -> Seq<bool> {
    Seq::new(width, |i: int| exists|k: int| 0 <= k < positions.len() && positions[k] == i)
}

/// The positions of the set bits of `n`, in ascending order, are `positions`.
pub open spec fn is_set_positions(n: nat, positions: Seq<int>) -> bool {
    &&& forall|j: int, k: int| 0 <= j < k < positions.len() ==> positions[j] < positions[k]
    &&& forall|i: int| positions.contains(i) <==> 0 <= i && bit_at(n, i as nat)
}

/// Bit 0 is the parity; bit `i + 1` of `n` is bit `i` of `n / 2`.
pub proof fn lemma_bit_at_step(n: nat, i: nat)
    ensures
        bit_at(n, 0) == (n % 2 == 1),
        bit_at(n, i + 1) == bit_at(n / 2, i),
{
    assert(pow2(0) == 1) by {
        vstd::arithmetic::power2::lemma2_to64();
    }
    lemma_pow2_unfold(i + 1);
    lemma_pow2_pos(i);
    lemma_div_denominator(n as int, 2, pow2(i) as int);
}

/// A set bit `i` means that `n` is at least `2^i`.
pub proof fn lemma_bit_at_lower_bound(n: nat, i: nat)
    requires
        bit_at(n, i),
    ensures
        n >= pow2(i),
{
    lemma_pow2_pos(i);
    if n < pow2(i) {
        lemma_basic_div(n as int, pow2(i) as int);
    }
}

/// A number below `2^width` has no bit set from `width` on.
pub proof fn lemma_no_bit_above(n: nat, width: nat, i: nat)
    requires
        n < pow2(width),
        width <= i,
    ensures
        !bit_at(n, i),
{
    if width < i {
        lemma_pow2_strictly_increases(width, i);
    }
    lemma_basic_div(n as int, pow2(i) as int);
}

/// Setting bit `i + 1` of `n` is setting bit `i` of `n / 2`; setting bit 0
/// replaces the parity.
pub proof fn lemma_with_bit_step(n: nat, i: nat, flag: bool)
    ensures
        with_bit(n, 0, flag) == 2 * (n / 2) + weight(flag, 0),
        weight(flag, 0) == if flag { 1nat } else { 0nat },
        with_bit(n, i + 1, flag) == 2 * with_bit(n / 2, i, flag) + n % 2,
{
    lemma_bit_at_step(n, i);
    assert(pow2(0) == 1) by {
        vstd::arithmetic::power2::lemma2_to64();
    }
    lemma_pow2_unfold(i + 1);
    if bit_at(n / 2, i) {
        lemma_bit_at_lower_bound(n / 2, i);
    }
}

/// After bit `i` is made `flag`, bit `i` reads `flag` and every other bit
/// reads as before.
pub proof fn lemma_with_bit_reads(n: nat, i: nat, flag: bool, j: nat)
    ensures
        bit_at(with_bit(n, i, flag), j) == if j == i {
            flag
        } else {
            bit_at(n, j)
        },
    decreases i,
{
    let after = with_bit(n, i, flag);
    if i == 0 {
        lemma_with_bit_step(n, 0, flag);
        if j == 0 {
            lemma_bit_at_step(after, 0);
        } else {
            lemma_bit_at_step(after, (j - 1) as nat);
            lemma_bit_at_step(n, (j - 1) as nat);
            assert(after / 2 == n / 2);
        }
    } else {
        let half = with_bit(n / 2, (i - 1) as nat, flag);
        lemma_with_bit_step(n, (i - 1) as nat, flag);
        assert(after == 2 * half + n % 2);
        assert(after / 2 == half);
        assert(after % 2 == n % 2);
        if j == 0 {
            lemma_bit_at_step(after, 0);
            lemma_bit_at_step(n, 0);
        } else {
            lemma_bit_at_step(after, (j - 1) as nat);
            lemma_bit_at_step(n, (j - 1) as nat);
            lemma_with_bit_reads(n / 2, (i - 1) as nat, flag, (j - 1) as nat);
        }
    }
}

/// Making a bit below `width` set or clear keeps the number below `2^width`.
pub proof fn lemma_with_bit_bound(n: nat, i: nat, flag: bool, width: nat)
    requires
        n < pow2(width),
        i < width,
    ensures
        with_bit(n, i, flag) < pow2(width),
    decreases i,
{
    lemma_pow2_unfold(width);
    if i == 0 {
        lemma_with_bit_step(n, 0, flag);
    } else {
        lemma_with_bit_step(n, (i - 1) as nat, flag);
        lemma_with_bit_bound(n / 2, (i - 1) as nat, flag, (width - 1) as nat);
    }
}

/// Two numbers below `2^width` with the same low `width` bits are equal.
pub proof fn lemma_bits_determine_value(n: nat, m: nat, width: nat)
    requires
        n < pow2(width),
        m < pow2(width),
        bits_of(n, width) == bits_of(m, width),
    ensures
        n == m,
    decreases width,
{
    if width == 0 {
        assert(pow2(0) == 1) by {
            vstd::arithmetic::power2::lemma2_to64();
        }
    } else {
        let less = (width - 1) as nat;
        lemma_pow2_unfold(width);
        assert forall|i: int| 0 <= i < less implies #[trigger] bits_of(n / 2, less)[i]
            == bits_of(m / 2, less)[i] by {
            lemma_bit_at_step(n, i as nat);
            lemma_bit_at_step(m, i as nat);
            assert(bits_of(n, width)[i + 1] == bit_at(n, (i + 1) as nat));
            assert(bits_of(m, width)[i + 1] == bit_at(m, (i + 1) as nat));
            assert(bits_of(n / 2, less)[i] == bit_at(n / 2, i as nat));
            assert(bits_of(m / 2, less)[i] == bit_at(m / 2, i as nat));
        }
        assert(bits_of(n / 2, less) =~= bits_of(m / 2, less));
        lemma_bits_determine_value(n / 2, m / 2, less);
        lemma_bit_at_step(n, 0);
        lemma_bit_at_step(m, 0);
        assert(bits_of(n, width)[0] == bit_at(n, 0));
        assert(bits_of(m, width)[0] == bit_at(m, 0));
    }
}

/// The value of a sequence of flags is below `2^len`, and its bit `i` is
/// `flags[i]` inside the sequence and clear beyond it.
pub proof fn lemma_flags_value_reads(flags: Seq<bool>, i: nat)
    ensures
        flags_value(flags) < pow2(flags.len()),
        bit_at(flags_value(flags), i) == (i < flags.len() && flags[i as int]),
    decreases flags.len(),
{
    if flags.len() == 0 {
        lemma_pow2_pos(0);
        lemma_no_bit_above(0, 0, i);
    } else {
        let top = (flags.len() - 1) as nat;
        let rest = flags.drop_last();
        let low = flags_value(rest);
        lemma_flags_value_reads(rest, i);
        lemma_flags_value_reads(rest, top);
        lemma_pow2_unfold(flags.len());
        if flags.last() {
            assert(with_bit(low, top, true) == low + pow2(top));
            lemma_with_bit_reads(low, top, true, i);
        }
        if i > top {
            lemma_no_bit_above(flags_value(flags), flags.len(), i);
        }
    }
}

/// Reading the low `width` bits of a number below `2^width` and putting
/// them together again gives the number back.
pub proof fn lemma_value_of_bits(n: nat, width: nat)
    requires
        n < pow2(width),
    ensures
        flags_value(bits_of(n, width)) == n,
{
    let bits = bits_of(n, width);
    let m = flags_value(bits);
    assert forall|i: int| 0 <= i < width implies #[trigger] bits_of(m, width)[i] == bits_of(
        n,
        width,
    )[i] by {
        lemma_flags_value_reads(bits, i as nat);
    }
    lemma_flags_value_reads(bits, 0);
    assert(bits_of(m, width) =~= bits_of(n, width));
    lemma_bits_determine_value(m, n, width);
}

/// Replacing one flag of a sequence changes that one bit of its value.
pub proof fn lemma_value_of_update(flags: Seq<bool>, i: nat, flag: bool)
    requires
        i < flags.len(),
    ensures
        flags_value(flags.update(i as int, flag)) == with_bit(flags_value(flags), i, flag),
{
    let width = flags.len();
    let changed = flags.update(i as int, flag);
    let n = flags_value(changed);
    let m = with_bit(flags_value(flags), i, flag);
    lemma_flags_value_reads(flags, i);
    lemma_flags_value_reads(changed, i);
    lemma_with_bit_bound(flags_value(flags), i, flag, width);
    assert forall|j: int| 0 <= j < width implies #[trigger] bits_of(n, width)[j] == bits_of(
        m,
        width,
    )[j] by {
        lemma_flags_value_reads(flags, j as nat);
        lemma_flags_value_reads(changed, j as nat);
        lemma_with_bit_reads(flags_value(flags), i, flag, j as nat);
    }
    assert(bits_of(n, width) =~= bits_of(m, width));
    lemma_bits_determine_value(n, m, width);
}

/// Laying nothing over the bits of a number leaves the number.
pub proof fn lemma_overlay_none(n: nat, width: nat)
    requires
        n < pow2(width),
    ensures
        flags_value(overlay(bits_of(n, width), Seq::empty())) == n,
{
    assert(overlay(bits_of(n, width), Seq::empty()) =~= bits_of(n, width));
    lemma_value_of_bits(n, width);
}

/// Laying one more flag over the bits of a number sets that one bit.
pub proof fn lemma_overlay_next(n: nat, width: nat, flags: Seq<bool>, i: nat)
    requires
        i < width,
        i < flags.len(),
    ensures
        flags_value(overlay(bits_of(n, width), flags.take(i as int + 1))) == with_bit(
            flags_value(overlay(bits_of(n, width), flags.take(i as int))),
            i,
            flags[i as int],
        ),
{
    let before = overlay(bits_of(n, width), flags.take(i as int));
    let after = overlay(bits_of(n, width), flags.take(i as int + 1));
    assert(after =~= before.update(i as int, flags[i as int]));
    lemma_value_of_update(before, i, flags[i as int]);
}

/// Once the flags are used up, or the bits are, laying over the rest changes
/// nothing more.
pub proof fn lemma_overlay_all(n: nat, width: nat, flags: Seq<bool>, i: nat)
    requires
        i <= flags.len(),
        i == flags.len() || i >= width,
    ensures
        overlay(bits_of(n, width), flags.take(i as int)) == overlay(bits_of(n, width), flags),
{
    assert(overlay(bits_of(n, width), flags.take(i as int)) =~= overlay(
        bits_of(n, width),
        flags,
    ));
}

/// With no position given, no flag is set and the value is zero.
pub proof fn lemma_flags_at_none(width: nat)
    ensures
        flags_value(flags_at(Seq::empty(), width)) == 0,
{
    let none = flags_at(Seq::empty(), width);
    let m = flags_value(none);
    lemma_pow2_pos(width);
    lemma_pow2_pos(0);
    lemma_flags_value_reads(none, 0);
    assert forall|i: int| 0 <= i < width implies #[trigger] bits_of(m, width)[i] == bits_of(
        0,
        width,
    )[i] by {
        lemma_flags_value_reads(none, i as nat);
        lemma_no_bit_above(0, 0, i as nat);
    }
    assert(bits_of(m, width) =~= bits_of(0, width));
    lemma_bits_determine_value(m, 0, width);
}

/// One more position sets that one bit of the value.
pub proof fn lemma_flags_at_next(positions: Seq<u8>, i: int, width: nat)
    requires
        0 <= i < positions.len(),
        positions[i] < width,
    ensures
        flags_value(flags_at(positions.take(i + 1), width)) == with_bit(
            flags_value(flags_at(positions.take(i), width)),
            positions[i] as nat,
            true,
        ),
{
    let fewer = positions.take(i);
    let more = positions.take(i + 1);
    let before = flags_at(fewer, width);
    let after = flags_at(more, width);
    let p = positions[i] as int;
    assert forall|j: int| 0 <= j < width implies after[j] == before.update(p, true)[j] by {
        if j == p {
            assert(more[i] == j);
        } else if before[j] {
            let k = choose|k: int| 0 <= k < fewer.len() && fewer[k] == j;
            assert(more[k] == j);
        } else if after[j] {
            let k = choose|k: int| 0 <= k < more.len() && more[k] == j;
            assert(fewer[k] == j);
        }
    }
    assert(after =~= before.update(p, true));
    lemma_value_of_update(before, p as nat, true);
}

} // verus!
