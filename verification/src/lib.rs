//! A CHIP-8 virtual machine.
//!
//! The machine has 4096 bytes of memory, sixteen 8-bit registers, a 16-bit
//! index register, two timers, a call stack of sixteen return addresses, a
//! keypad of sixteen keys and a monochrome screen of 64 by 32 pixels. The
//! interpreter in [`machine::chip8`] fetches two bytes at the program
//! counter, decodes them into an [`machine::instruction::Instruction`] and
//! runs it.
//!
//! What the machine does is stated over [`machine::semantics::MachineState`],
//! the state of a machine as a mathematical value: the contract of every
//! function of the interpreter says which state it leaves behind. The
//! conditions under which the machine cannot go on, a word that is no
//! instruction, an address beyond the memory, a call too many or a return
//! too many, are preconditions there, and
//! [`machine::chip8::Chip8::next_fault`] tells at run time whether one of
//! them holds.
//!
//! The screen and the keyboard are not part of the machine. The machine
//! hands each new frame to a [`display::virtual_display::VirtualDisplay`],
//! and is told of keys through `register_key` and `clear_keys`.

pub mod bit_utils;
pub mod display;
pub mod input;
pub mod machine;
