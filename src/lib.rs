//! An abstract operand stack for one function body of a stack-machine
//! instruction stream: value types interleaved with markers for open blocks.

pub mod types;
pub mod type_stack;
pub mod laws;
