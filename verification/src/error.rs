use vstd::prelude::*;

verus! {

/// Errors surfaced by the script runtime cache. Every invocation failure is
/// reported as one of these kinds, so callers can choose a response without
/// ever seeing native interpreter error text.
#[derive(Clone, Copy, Debug, PartialEq, Eq, Structural)]
pub enum RuntimeError {
    /// No script source is registered under the requested name.
    SourceNotFound,
    /// The script text failed to compile.
    CompileError,
    /// The compiled script does not expose the expected entry-point callable.
    EntryPointMissing,
    /// The entry-point callable raised an error while running.
    CallFailed,
    /// The input or output value cannot be represented in the bridge's model.
    ValueBridgeError,
}

impl RuntimeError {
    /// A stable, human-readable description of the error kind. Nothing from
    /// the native runtime leaks through here.
    pub fn describe(&self) -> (r: &'static str)
        ensures
            (match self {
                RuntimeError::SourceNotFound => r@ == "script source not found"@,
                RuntimeError::CompileError => r@ == "script failed to compile"@,
                RuntimeError::EntryPointMissing => r@ == "script has no entry point"@,
                RuntimeError::CallFailed => r@ == "script call failed"@,
                RuntimeError::ValueBridgeError => r@ == "value not representable"@,
            }),
    {
        match self {
            RuntimeError::SourceNotFound => "script source not found",
            RuntimeError::CompileError => "script failed to compile",
            RuntimeError::EntryPointMissing => "script has no entry point",
            RuntimeError::CallFailed => "script call failed",
            RuntimeError::ValueBridgeError => "value not representable",
        }
    }
}

} // verus!
