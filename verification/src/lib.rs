//! A verified CHIP-8 virtual machine core.
//!
//! The crate models the machine state (memory, registers, call stack,
//! timers), the 64x32 monochrome display with XOR sprite compositing, and
//! the fetch-decode-execute cycle of the instruction set.  Terminal input
//! and output live outside the library; the library exchanges plain values
//! (key codes, redraw lists, timer readings) with its host.

pub mod exec;
pub mod isa;
pub mod laws;
pub mod screen;
pub mod state;

pub use screen::Screen;
pub use state::State;
