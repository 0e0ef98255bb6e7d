//! Core of an 8-bit game-console emulator: an instruction execution engine
//! over a flat 16-bit address space, and a cycle-driven pixel pipeline that
//! turns tile memory into a stream of 2-bit pixel values.

pub mod cpu;
pub mod mmu;
pub mod ppu;
pub mod utils;
