//! A bytecode virtual machine whose program and operand stack share one
//! 4096-byte memory, with bit-packed 32-bit instruction words.

pub mod field;
pub mod instruction;
pub mod word;
pub mod text;
pub mod vm;
pub mod theorems;
