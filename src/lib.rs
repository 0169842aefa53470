//! A toolchain for a small fixed-width instruction architecture: assembly text
//! is parsed into instructions, labels are resolved into addresses, and the
//! resolved program is either packed into 24-bit machine words or run by an
//! interpreter.

pub mod ast;
pub mod parser;
pub mod symbol;
pub mod compiler;
pub mod encoder;
pub mod state;
pub mod vm;
pub mod interpreter;
