//! HAL model for the TI TM4C123GH6PM.

pub mod io;
pub mod pin;
pub mod sysctl;
pub mod timer;
