//! The parts of the machine and the interpreter that owns them.

pub mod chip8;
pub mod display_state;
pub mod drawing;
pub mod hex;
pub mod instruction;
pub mod laws;
pub mod ram;
pub mod registers;
pub mod semantics;
pub mod stack;
