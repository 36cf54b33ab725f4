//! A CHIP-8 virtual machine core: memory, registers, instruction decoding,
//! execution and the program-text loader, with their behaviour stated as
//! Verus contracts.

pub mod emulator;
pub mod instruction;
pub mod key;
pub mod keyboard;
pub mod loader;
pub mod machine;
pub mod memory;
pub mod pacing;
pub mod register;
