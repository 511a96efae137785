//! A record of eight booleans in packed form.

use vstd::prelude::*;
use std::ops::{Deref, DerefMut};
use crate::bit_flag::BitFlag;
use crate::bits::{bit_at, with_bit};

verus! {

/// Eight flags, `a` to `h`, packed into one `u8`: the packed form of a
/// record that declares them as `bool` fields in this order. Flag `a` is bit
/// 0, the lowest, and flag `h` is bit 7.
pub struct Test {
    value: u8,
}

impl View for Test {
    type V = u8;

    /// The underlying word.
    closed spec fn view(&self) -> u8 {
        self.value
    }
}

impl Test {
    /// The first flag: bit 0 of the word.
    pub fn a(&self) -> (flag: bool)
        ensures
            flag == bit_at(self@ as nat, 0),
    {
        self.value.get_flag(0)
    }

    /// Sets the first flag, bit 0 of the word, and leaves the others.
    pub fn set_a(&mut self, value: bool)
        ensures
            final(self)@ as nat == with_bit(old(self)@ as nat, 0, value),
    {
        self.value.set_flag(0, value);
    }

    /// The second flag: bit 1 of the word.
    pub fn b(&self) -> (flag: bool)
        ensures
            flag == bit_at(self@ as nat, 1),
    {
        self.value.get_flag(1)
    }

    /// Sets the second flag, bit 1 of the word, and leaves the others.
    pub fn set_b(&mut self, value: bool)
        ensures
            final(self)@ as nat == with_bit(old(self)@ as nat, 1, value),
    {
        self.value.set_flag(1, value);
    }

    /// The third flag: bit 2 of the word.
    pub fn c(&self) -> (flag: bool)
        ensures
            flag == bit_at(self@ as nat, 2),
    {
        self.value.get_flag(2)
    }

    /// Sets the third flag, bit 2 of the word, and leaves the others.
    pub fn set_c(&mut self, value: bool)
        ensures
            final(self)@ as nat == with_bit(old(self)@ as nat, 2, value),
    {
        self.value.set_flag(2, value);
    }

    /// The fourth flag: bit 3 of the word.
    pub fn d(&self) -> (flag: bool)
        ensures
            flag == bit_at(self@ as nat, 3),
    {
        self.value.get_flag(3)
    }

    /// Sets the fourth flag, bit 3 of the word, and leaves the others.
    pub fn set_d(&mut self, value: bool)
        ensures
            final(self)@ as nat == with_bit(old(self)@ as nat, 3, value),
    {
        self.value.set_flag(3, value);
    }

    /// The fifth flag: bit 4 of the word.
    pub fn e(&self) -> (flag: bool)
        ensures
            flag == bit_at(self@ as nat, 4),
    {
        self.value.get_flag(4)
    }

    /// Sets the fifth flag, bit 4 of the word, and leaves the others.
    pub fn set_e(&mut self, value: bool)
        ensures
            final(self)@ as nat == with_bit(old(self)@ as nat, 4, value),
    {
        self.value.set_flag(4, value);
    }

    /// The sixth flag: bit 5 of the word.
    pub fn f(&self) -> (flag: bool)
        ensures
            flag == bit_at(self@ as nat, 5),
    {
        self.value.get_flag(5)
    }

    /// Sets the sixth flag, bit 5 of the word, and leaves the others.
    pub fn set_f(&mut self, value: bool)
        ensures
            final(self)@ as nat == with_bit(old(self)@ as nat, 5, value),
    {
        self.value.set_flag(5, value);
    }

    /// The seventh flag: bit 6 of the word.
    pub fn g(&self) -> (flag: bool)
        ensures
            flag == bit_at(self@ as nat, 6),
    {
        self.value.get_flag(6)
    }

    /// Sets the seventh flag, bit 6 of the word, and leaves the others.
    pub fn set_g(&mut self, value: bool)
        ensures
            final(self)@ as nat == with_bit(old(self)@ as nat, 6, value),
    {
        self.value.set_flag(6, value);
    }

    /// The eighth flag: bit 7 of the word.
    pub fn h(&self) -> (flag: bool)
        ensures
            flag == bit_at(self@ as nat, 7),
    {
        self.value.get_flag(7)
    }

    /// Sets the eighth flag, bit 7 of the word, and leaves the others.
    pub fn set_h(&mut self, value: bool)
        ensures
            final(self)@ as nat == with_bit(old(self)@ as nat, 7, value),
    {
        self.value.set_flag(7, value);
    }

    /// Packs a raw word.
    pub fn new(val: u8) -> (packed: Self)
        ensures
            packed@ == val,
    {
        Self { value: val }
    }

    /// The raw word.
    pub fn value(&self) -> (val: u8)
        ensures
            val == self@,
    {
        self.value
    }
}

impl Deref for Test {
    type Target = u8;

    /// The word inside, to read: all operations of a `u8` of flags apply.
    fn deref(&self) -> (word: &u8)
        ensures
            *word == self@,
    {
        &self.value
    }
}

impl DerefMut for Test {
    /// The word inside, to change: what is written to it is what the record
    /// then holds.
    fn deref_mut(&mut self) -> (word: &mut u8)
        ensures
            *word == old(self)@,
            final(self)@ == *final(word),
    {
        &mut self.value
    }
}

} // verus!
