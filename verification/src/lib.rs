//! A CHIP-8 virtual machine: a 35-opcode instruction set over 4KB of memory,
//! sixteen 8-bit registers, a 64x32 monochrome frame buffer, a 16-key keypad
//! and two 60Hz countdown timers.
//!
//! The decoder turns a 16-bit instruction word into a typed [`instructions::Instr`];
//! the machine in [`chip8`] fetches, decodes and executes one instruction per
//! step call, under a configurable set of compatibility [`quirks::Quirks`].

pub mod chip8;
pub mod errors;
pub mod instructions;
pub mod keyboard;
pub mod laws;
pub mod numtypes;
pub mod quirks;
pub mod reg;
pub mod semantics;
pub mod timers;
