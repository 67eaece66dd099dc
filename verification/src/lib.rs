//! A small register-machine interpreter: an expression/statement tree is
//! lowered to linear bytecode, and the bytecode runs on a per-process
//! virtual machine with a register file and a named-variable store.

pub mod ast;
pub mod generator;
pub mod instruction;
pub mod laws;
pub mod lexer;
pub mod process;
pub mod storage;
pub mod value;
pub mod vm;
