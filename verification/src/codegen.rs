//! The two passes: address resolution, then parsing and code generation.

pub mod addr_table;
pub mod assembler;
pub mod instruction;
pub mod isa;
pub mod mnemonic;
pub mod notation;
pub mod passes;
pub mod preprocessor;
pub mod syntax;

pub use addr_table::AddrTable;
pub use assembler::{assemble_source, assemble_with_binary, Assembler};
pub use mnemonic::Mnemonic;
pub use preprocessor::Preprocessor;
pub use instruction::{
    AddData, DrawData, Instr, Item, MovData, PairData, RandData, Reg, SkipData, SkipType,
};
