//! A CHIP-8 virtual machine: a 4 KiB memory, sixteen 8-bit registers, a
//! sixteen-slot call stack, two 60 Hz countdown timers, a 64x32 monochrome
//! pixel grid and a sixteen-key keypad, driven one instruction cycle at a
//! time. Every instruction's effect on the machine state is specified and
//! proved; the host (display, keyboard, clock, storage) stays outside.

pub mod cpu;
pub mod draw;
pub mod inst;
pub mod laws;
pub mod state;

pub use inst::Chip8Error;
pub use inst::Flow;
pub use inst::Inst;
pub use state::Chip8;
pub use state::Rom;
pub use state::State;

use vstd::prelude::*;

verus! {

/// Width of the pixel grid, in pixels.
pub const CHIP8_SCREEN_WIDTH: usize = 64;

/// Height of the pixel grid, in pixels.
pub const CHIP8_SCREEN_HEIGHT: usize = 32;

/// Number of addressable bytes of machine memory.
pub const MEM_SIZE: usize = 4096;

/// Address at which a loaded program begins; the bytes below it belong to
/// the interpreter (the font glyphs sit in the first 80 of them).
pub const PROGRAM_START: usize = 0x200;

/// Largest number of program bytes a memory image can hold.
pub const PROGRAM_CAPACITY: usize = 0xDFF;

} // verus!
