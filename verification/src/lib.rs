//! A verified interpreter core for the CHIP-8 virtual machine.
//!
//! The crate models the machine state (memory, registers, display, call
//! stack, timers), decodes and executes one instruction per step, and drives
//! the two countdown timers.  Every state change is specified against a
//! mathematical view of the machine and proved.  Presentation concerns
//! (windowing, audio, program loading) stay outside, wired in through the
//! [`DrawHandler`] and [`BeepHandler`] traits.

pub mod font;
pub mod instr;
pub mod semantics;
pub mod machine;
pub mod laws;

pub use crate::machine::BeepHandler;
pub use crate::machine::Chip8;
pub use crate::machine::DrawHandler;
pub use crate::semantics::Chip8Error;
