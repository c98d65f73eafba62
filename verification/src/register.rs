//! Writes to memory-mapped peripheral registers.

use vstd::prelude::*;

verus! {

/// One write of `value` to the 8-bit register at data-space `address`.
///
/// The peripheral functions of this crate compute the writes that configure
/// or drive a peripheral; the firmware performs them, in order, with volatile
/// stores.
#[derive(Clone, Copy, Debug, PartialEq, Eq, Structural)]
pub struct RegisterWrite {
    /// The register's address in the data space.
    pub address: u16,
    /// The value stored in the register.
    pub value: u8,
}

/// Bit `bit` of `value` is set.
pub open spec fn bit_set(value: u8, bit: u8) -> bool {
    (value >> bit) & 1u8 == 1u8
}

} // verus!
