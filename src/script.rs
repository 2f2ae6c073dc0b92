//! How running a script can fail, as the frame pipeline sees it.
use vstd::prelude::*;

use crate::host::ArgumentError;

verus! {

/// A failure while loading or running a script. None of them stops the
/// process: the pipeline keeps its last good state and reports the error.
#[derive(Debug, PartialEq, Eq)]
pub enum ScriptError {
    /// The script could not be parsed or compiled.
    Load(String),
    /// The script raised an error that it did not catch.
    Runtime(String),
    /// A required entry point (`init` or `draw`) is not exported.
    MissingExport(String),
    /// A file could not be read or watched.
    Io(String),
    /// A host function was called with wrong arguments.
    Argument(ArgumentError),
}

/// The entry point `name` if the script exports it as something callable,
/// else `MissingExport(name)`.
pub fn require_export<F>(name: &str, export: Option<F>) -> (r: Result<F, ScriptError>)
    ensures
        match export {
            Some(f) => r == Ok::<F, ScriptError>(f),
            None => r matches Err(ScriptError::MissingExport(n)) && n@ == name@,
        },
{
    match export {
        Some(f) => Ok(f),
        None => Err(ScriptError::MissingExport(name.to_owned())),
    }
}

} // verus!
