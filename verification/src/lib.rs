//! A CHIP-8 virtual machine: memory, framebuffer, keypad, the instruction
//! decoder and the fetch-decode-execute core, each with a contract that
//! Verus proves.

pub mod chip8;
pub mod display;
pub mod instruction;
pub mod keyboard;
pub mod memory;
