//! Common UART vocabulary shared by the chip-specific UART modules.

use vstd::prelude::*;

verus! {

/// Parity configuration of a UART frame.
#[derive(Clone, Copy, PartialEq, Eq, Structural, Debug)]
pub enum Parity {
    Disabled,
    Odd,
    Even,
    Forced1,
    Forced0,
}

} // verus!
