//! The library's error type. Failures from the surrounding process
//! (file handling, a malformed configuration document) are carried as
//! plain messages.

use vstd::prelude::*;

verus! {

#[derive(Debug, Clone, PartialEq)]
pub enum AppError {
    /// A configuration value could not be used.
    Config(String),
    /// Reading or writing a file failed.
    Io(String),
    /// The persisted configuration document is malformed.
    Document(String),
}

} // verus!
