//! A verified engine that keeps a package's version string in sync across
//! project files.
//!
//! The engine reads the package name and version from a manifest model,
//! resolves a per-file list of text replacers (user-declared regex
//! substitutions or named builtin transformations), applies them to file
//! contents handed in by the caller, and reports the files whose content
//! changed as a changeset. All file and environment access stays outside
//! this crate: callers read the files and pass their contents in.

pub mod changeset;
pub mod cli;
pub mod date;
pub mod error;
pub mod linediff;
pub mod manifest;
pub mod replacer;
pub mod rex;
pub mod runner;
pub mod template;
pub mod text;

pub use crate::changeset::{Changeset, Diff};
pub use crate::cli::{Cargo, VersionSync};
pub use crate::date::Date;
pub use crate::error::Error;
pub use crate::linediff::{numbered_removed, removed_lines, DiffChunk};
pub use crate::manifest::{Config, Manifest, Metadata, Package, Pattern, Replacement};
pub use crate::replacer::{BuiltinReplacer, BuiltinTarget, RegexReplacer, Replacer, ReplacerContext};
pub use crate::runner::{FileInput, Runner};
