//! Hardware-facing modules: the per-chip data models, the numeric
//! algorithms their drivers rely on, and the platform-tree driver handlers
//! that plug chip knowledge into the generic compiler.

pub mod lpc17xx;
pub mod pin;
pub mod tiva_c;
pub mod tm4c123gh6pm;
pub mod uart;
