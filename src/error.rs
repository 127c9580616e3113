//! Configuration errors raised before any file is written.
use vstd::prelude::*;

verus! {

#[derive(Debug)]
pub enum ConfigError {
    /// The manifest's directory has no final name component.
    NoDirectoryName,
    /// The declared package name differs from its directory's name.
    NameMismatch { declared: String, directory: String },
    /// An exclusion pattern is not a valid glob.
    InvalidPattern { pattern: String, reason: String },
    /// The glob patterns, each valid, could not be compiled together.
    InvalidPatternSet { reason: String },
    /// The entrypoint path has no final file name.
    InvalidEntrypoint { entrypoint: String },
}

} // verus!
