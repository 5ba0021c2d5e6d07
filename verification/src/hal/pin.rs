//! Common GPIO vocabulary shared by the chip-specific pin modules.

use vstd::prelude::*;

verus! {

/// Direction of a GPIO pin.
#[derive(Clone, Copy, PartialEq, Eq, Structural, Debug)]
pub enum GPIODirection {
    In,
    Out,
}

/// Logic level of a GPIO pin.
#[derive(Clone, Copy, PartialEq, Eq, Structural, Debug)]
pub enum GPIOLevel {
    Low,
    High,
}

} // verus!
