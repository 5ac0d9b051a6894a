//! Middle and back end of a compiler for a small statically typed language.
//!
//! A type-checked module is lowered to a mid-level program, and the code
//! generator turns that program into a native module: a plain record of the
//! functions, globals and instructions that the machine-code backend is asked
//! to build. Every function here carries a contract that Verus proves.

pub mod compiler;
pub mod consistency;
pub mod driver;
pub mod dump;
pub mod error;
pub mod execution;
pub mod mir;
pub mod native;
pub mod transform;
pub mod typing;
