//! An 8-bit instruction set with a cycle-stepped interpreter and an assembler.
//!
//! Every instruction is three bytes wide: one byte of option flags and opcode,
//! then two operand addresses. The interpreter owns a single register, two
//! bank-switched memories and a bus of memory-mapped devices, all reached
//! through one 8-bit address space. The assembler turns mnemonic source text
//! into that three-byte encoding, resolving labels in two passes.
pub mod alu;
pub mod assembler;
pub mod banking;
pub mod codec;
pub mod devices;
pub mod emulation;
pub mod symbols;
pub mod text;

pub use crate::banking::Banker;
pub use crate::codec::Instruction;
pub use crate::codec::OpCode;
pub use crate::codec::OpOptions;
pub use crate::devices::Device;
pub use crate::emulation::Halted;
pub use crate::emulation::CPU;
pub use crate::symbols::Symbol;
pub use crate::symbols::SymbolTable;
