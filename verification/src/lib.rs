//! Back end of a minimal C-subset compiler: a tokenizer and recursive-descent
//! parser produce a typed syntax tree, a semantic pass resolves identifiers to
//! stack offsets, an IR generator lowers each function tree to a linear
//! instruction stream over unbounded virtual registers, a register allocator
//! rewrites those streams onto eight physical registers, and a code generator
//! renders the allocated streams as textual x86 assembly.

pub mod codegen;
pub mod common;
pub mod ir;
pub mod laws;
pub mod node;
pub mod regalloc;
pub mod sema;
pub mod token;
