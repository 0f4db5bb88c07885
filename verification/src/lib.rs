//! Core of a NES emulator: the 6502 CPU, the APU's sound channels, cartridge mappers,
//! memory and controller input, each stated against a mathematical model and verified.

pub mod apu;
pub mod errors;
pub mod helpers;
pub mod input;
pub mod memory;
pub mod text;
pub mod cartridge;
pub mod cpu;
