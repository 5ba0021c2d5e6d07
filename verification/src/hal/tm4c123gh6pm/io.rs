//! Register addressing model.

use vstd::prelude::*;

verus! {

/// A 32-bit hardware register, identified by its address.
#[derive(Clone, Copy, PartialEq, Eq, Structural, Debug)]
pub struct Reg {
    /// Register address.
    pub addr: u32,
}

/// One step of a register bring-up sequence, computed by the library and
/// performed by unverified hardware-access code.
#[derive(Clone, Copy, PartialEq, Eq, Structural, Debug)]
pub enum RegOp {
    /// Store `val` to the 32-bit register at `addr`.
    Write32 { addr: u32, val: u32 },
    /// Set or clear one bit through the bit-band alias of `addr`.
    BitbandWrite { addr: u32, bit: u8, set: bool },
    /// Read-modify-write `val` into the `width`-bit field of `addr` that
    /// starts at bit `shift`.
    FieldWrite { addr: u32, shift: u8, width: u8, val: u32 },
    /// Busy-wait until the register at `addr` has some bit of `mask` set.
    WaitBitSet { addr: u32, mask: u32 },
    /// Busy-wait until the register at `addr` has every bit of `mask` clear.
    WaitBitClear { addr: u32, mask: u32 },
}

impl Reg {
    /// Create a new `Reg` from a 32-bit register address.
    pub fn new(addr: u32) -> (r: Reg)
        ensures
            r.addr == addr,
    {
        Reg { addr }
    }

    /// The bit-band alias through which bit `bit` of this register is
    /// written as a whole word.
    pub fn bitband_addr(&self, bit: u8) -> (r: u32)
        requires
            bit < 32,
        ensures
            r == (self.addr & 0xf0000000) | 0x02000000 | ((self.addr & 0x00fffff) << 5) | ((
            bit as u32) << 2),
    {
        let a = self.addr;
        let b: u32 = bit as u32;
        proof {
            assert(((a & 0x00fffff) << 5) <= 0x1ffffe0u32) by (bit_vector);
        }
        let mut bitband: u32 = (a & 0xf0000000) | 0x02000000;
        bitband = bitband | ((a & 0x00fffff) << 5);
        bitband = bitband | (b << 2);
        bitband
    }
}

} // verus!
