//! A container for a word of flags.

use vstd::prelude::*;
use std::ops::{Deref, DerefMut};
use crate::bit_flag::BitFlag;
use crate::bits::{
    bit_at, bits_of, flags_at, flags_value, lemma_flags_at_next, lemma_flags_at_none, overlay,
    with_bit,
};

verus! {

/// A wrapper around a type that implements BitFlag. In case you don't want to import the trait and
/// see the trait methods on each unsized integer.
pub struct BitFlags<T>(T);

impl<T: BitFlag> View for BitFlags<T> {
    type V = T;

    /// The word inside.
    closed spec fn view(&self) -> T {
        self.0
    }
}

impl<T: BitFlag> BitFlags<T> {
    /// Wraps a word of flags.
    pub fn new(value: T) -> (flags: Self)
        ensures
            flags@ == value,
    {
        Self(value)
    }

    /// Sets the flag at the given position to the given value and leaves
    /// every other flag as it is. The position must be below the width.
    pub fn set_flag(&mut self, position: u8, value: bool)
        requires
            (position as nat) < T::width(),
        ensures
            final(self)@.value() == with_bit(old(self)@.value(), position as nat, value),
    {
        self.0.set_flag(position, value);
    }

    /// Returns the value of the flag at the given position. The position
    /// must be below the width.
    pub fn get_flag(&self, position: u8) -> (flag: bool)
        requires
            (position as nat) < T::width(),
        ensures
            flag == bit_at(self@.value(), position as nat),
    {
        self.0.get_flag(position)
    }

    /// Returns an array of bools representing the flags.
    /// The first element in the array is the flag at position 0.
    pub fn flags(&self) -> (flags: T::T)
        ensures
            T::flags_view(flags) == bits_of(self@.value(), T::width()),
    {
        self.0.flags()
    }

    /// Sets the first flags to the given values. `flags` can be of any
    /// length: what it holds beyond the width is ignored, and where it is
    /// shorter than the width the remaining flags stay as they are.
    pub fn set_flags(&mut self, flags: &[bool])
        ensures
            final(self)@.value() == flags_value(
                overlay(bits_of(old(self)@.value(), T::width()), flags@),
            ),
    {
        self.0.set_flags(flags);
    }
}

impl<T: BitFlag> Deref for BitFlags<T> {
    type Target = T;

    /// The word inside, to read.
    fn deref(&self) -> (word: &T)
        ensures
            *word == self@,
    {
        &self.0
    }
}

impl<T: BitFlag> DerefMut for BitFlags<T> {
    /// The word inside, to change: what is written to it is what the
    /// container then holds.
    fn deref_mut(&mut self) -> (word: &mut T)
        ensures
            *word == old(self)@,
            final(self)@ == *final(word),
    {
        &mut self.0
    }
}

/// Builds a container with exactly the flags at `positions` set and all
/// others clear. A position may occur more than once; each must be below 128.
pub fn flag_new(positions: &[u8]) -> (flags: BitFlags<u128>)
    requires
        forall|k: int| 0 <= k < positions@.len() ==> positions@[k] < 128,
    ensures
        flags@ == flags_value(flags_at(positions@, 128)),
{
    let mut tflag = BitFlags::<u128>::new(0);
    proof {
        lemma_flags_at_none(128);
        assert(positions@.take(0) =~= Seq::<u8>::empty());
    }
    let mut i: usize = 0;
    while i < positions.len()
        invariant
            i <= positions@.len(),
            forall|k: int| 0 <= k < positions@.len() ==> positions@[k] < 128,
            tflag@ == flags_value(flags_at(positions@.take(i as int), 128)),
        decreases positions@.len() - i,
    {
        proof {
            lemma_flags_at_next(positions@, i as int, 128);
        }
        tflag.set_flag(positions[i], true);
        i += 1;
    }
    proof {
        assert(positions@.take(positions@.len() as int) =~= positions@);
    }
    tflag
}

} // verus!
