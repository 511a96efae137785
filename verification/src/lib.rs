//! Bit flags: up to 128 named boolean fields packed into one unsigned integer.
//!
//! [`BitFlag`] gives the unsigned integers of 8 to 128 bits the operations of
//! a word of flags, and [`BitFlags`] wraps such a word. [`bitflag`] turns a
//! record of booleans into the description of a packed type with a getter and
//! a setter for each field; [`Test`] is such a type, of eight flags.

pub mod bit_flag;
pub mod bit_flags;
pub mod bits;
pub mod flag_u128;
pub mod flag_u16;
pub mod flag_u32;
pub mod flag_u64;
pub mod flag_u8;
pub mod flag_utils;
pub mod generate;
pub mod laws;
pub mod packed;
pub mod shape;

pub use crate::bit_flag::BitFlag;
pub use crate::bit_flags::{flag_new, BitFlags};
pub use crate::generate::bitflag;
pub use crate::packed::Test;
