//! The error kinds a run can end with.

use vstd::prelude::*;

verus! {

/// Why a run failed. Every failure aborts the run as a whole; a missing
/// target file is not an error (such files are silently skipped).
#[derive(Debug)]
pub enum Error {
    /// The manifest file does not exist.
    ManifestMissing,
    /// The manifest file exists but could not be parsed.
    ManifestParse,
    /// No directory holding a manifest file was found.
    ManifestRootNotFound,
    /// A builtin replacer was requested under an unknown name; holds that name.
    InvalidBuiltinTarget(String),
    /// A search pattern did not compile as a regular expression; holds the
    /// expanded pattern text.
    RegexCompile(String),
    /// A file could not be read or decoded; holds a description.
    Io(String),
    /// A declared or preset target path could not be resolved; holds the path.
    PathNotFound(String),
}

impl Error {
    /// A short human-readable description of the error.
    pub fn message(&self) -> (r: String)
        ensures
            r@ == self.message_spec(),
    {
        match self {
            Error::ManifestMissing => String::from_str("missing Cargo manifest file"),
            Error::ManifestParse => String::from_str("malformed Cargo manifest file"),
            Error::ManifestRootNotFound => String::from_str("the cargo manifest file is not found"),
            Error::InvalidBuiltinTarget(name) => String::from_str("invalid builtin target: ").concat(
                name.as_str(),
            ),
            Error::RegexCompile(pat) => String::from_str("invalid search pattern: ").concat(
                pat.as_str(),
            ),
            Error::Io(what) => String::from_str("i/o error: ").concat(what.as_str()),
            Error::PathNotFound(path) => String::from_str("path not found: ").concat(path.as_str()),
        }
    }

    /// What `message` returns, as a sequence of characters.
    pub open spec fn message_spec(&self) -> Seq<char> {
        match self {
            Error::ManifestMissing => "missing Cargo manifest file"@,
            Error::ManifestParse => "malformed Cargo manifest file"@,
            Error::ManifestRootNotFound => "the cargo manifest file is not found"@,
            Error::InvalidBuiltinTarget(name) => "invalid builtin target: "@ + name@,
            Error::RegexCompile(pat) => "invalid search pattern: "@ + pat@,
            Error::Io(what) => "i/o error: "@ + what@,
            Error::PathNotFound(path) => "path not found: "@ + path@,
        }
    }
}

} // verus!
