//! Bootstrap and addressing core of a user-mode MIPS32 execution environment:
//! register operand parsing, the fault taxonomy, the sparse virtual address
//! space and the construction of the initial machine state.

pub mod registers;
pub mod register_laws;
pub mod error;
pub mod memory;
pub mod state;
pub mod setup;
pub mod memory_laws;
