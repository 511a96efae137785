//! The operations of a word of flags.

use vstd::prelude::*;
use vstd::arithmetic::power2::pow2;
use crate::bits::{bit_at, bits_of, flags_value, overlay, with_bit};

verus! {

/// A trait for types that can be used as bit flags.
///
/// Such a type stands for a natural number below `2^width`; flag `i` is bit
/// `i` of that number, bit 0 being the lowest.
pub trait BitFlag: Sized {
    /// The flags one by one: an array with one `bool` for each bit.
    type T;

    /// The number of flags that the type holds.
    spec fn width() -> nat;

    /// The word as a number.
    spec fn value(&self) -> nat;

    /// The flags that an array of the type `T` holds, first flag first.
    spec fn flags_view(flags: Self::T) -> Seq<bool>;

    /// The number is below `2^width`.
    proof fn lemma_value_fits(&self)
        ensures
            self.value() < pow2(Self::width()),
    ;

    /// The number determines the word.
    proof fn lemma_value_determines(&self, other: &Self)
        requires
            self.value() == other.value(),
        ensures
            *self == *other,
    ;

    /// Sets the flag at the given position to the given value and leaves
    /// every other flag as it is. The position must be below the width.
    fn set_flag(&mut self, position: u8, value: bool)
        requires
            (position as nat) < Self::width(),
        ensures
            final(self).value() == with_bit(old(self).value(), position as nat, value),
    ;

    /// Returns the value of the flag at the given position. The position
    /// must be below the width.
    fn get_flag(&self, position: u8) -> (flag: bool)
        requires
            (position as nat) < Self::width(),
        ensures
            flag == bit_at(self.value(), position as nat),
    ;

    /// Returns an array of bools representing the flags. The first element
    /// of the array is the flag at position 0.
    fn flags(&self) -> (flags: Self::T)
        ensures
            Self::flags_view(flags) == bits_of(self.value(), Self::width()),
    ;

    /// Sets the first flags to the given values. `flags` can be of any
    /// length: what it holds beyond the width is ignored, and where it is
    /// shorter than the width the remaining flags stay as they are.
    fn set_flags(&mut self, flags: &[bool])
        ensures
            final(self).value() == flags_value(
                overlay(bits_of(old(self).value(), Self::width()), flags@),
            ),
    ;
}

} // verus!
