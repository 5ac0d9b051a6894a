//! The ways in which a compilation fails.

use vstd::prelude::*;

verus! {

/// Why lowering stopped.
#[derive(Clone, Copy, Debug, PartialEq, Eq, Structural)]
pub enum LoweringErrorKind {
    /// The typed tree holds a node kind that has no lowering rule.
    Unsupported,
    /// A second entry point was met after one had been installed.
    DuplicateMain,
}

/// A lowering failure, with the name of the declaration that was being
/// processed when it happened.
#[derive(Debug, PartialEq, Eq)]
pub struct LoweringError {
    pub kind: LoweringErrorKind,
    pub decl: String,
}

/// Why code generation stopped.
#[derive(Clone, Copy, Debug, PartialEq, Eq, Structural)]
pub enum CodegenError {
    /// The program holds a node kind that has no code generation rule.
    Unsupported,
}

/// Why a compilation failed: the failure of the stage that stopped it. The
/// last three come from outside and carry the words in which they were told.
#[derive(Debug, PartialEq, Eq)]
pub enum CompileError {
    /// Lowering met a node kind without a rule, or a second entry point.
    Lowering(LoweringError),
    /// Code generation met a node kind without a rule.
    Codegen(CodegenError),
    /// The backend found the emitted module inconsistent.
    Verification(String),
    /// The object code could not be produced or written.
    ObjectEmission(String),
    /// The linker could not be run, or did not succeed.
    Link(String),
}

} // verus!
