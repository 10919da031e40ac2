//! The manifest model: the package name and version that drive every
//! substitution, and the optional embedded replacement configuration.
//! Parsing the manifest file itself is the caller's concern; the engine
//! receives the model as plain values.

use vstd::prelude::*;
use crate::date::{self, Date};
use crate::error::Error;
use crate::replacer::Replacer;
use crate::rex;
use crate::template;

verus! {

/// The version-declaration file, reduced to what the engine reads.
#[derive(Debug)]
pub struct Manifest {
    pub package: Package,
}

impl Manifest {
    /// The declared package version.
    pub fn crate_version(&self) -> (r: &str)
        ensures
            r@ == self.package.version@,
    {
        self.package.version.as_str()
    }
}

/// The package block of the manifest.
#[derive(Debug)]
pub struct Package {
    pub name: String,
    pub version: String,
    pub metadata: Option<Metadata>,
}

/// The optional metadata block that may embed the replacement
/// configuration.
#[derive(Debug)]
pub struct Metadata {
    pub version_sync: Option<Config>,
}

/// The user's declared replacement configuration.
#[derive(Debug)]
pub struct Config {
    /// When set, the fixed preset replaces the declared list.
    pub use_preset: bool,
    pub replacements: Vec<Replacement>,
}

/// One declared pairing of a target file with its replacers, the file path
/// relative to the manifest root.
#[derive(Debug)]
pub struct Replacement {
    pub file: String,
    pub replacers: Vec<Replacer>,
}

/// A bare search-and-replace template pair.
#[derive(Debug)]
pub struct Pattern {
    pub search: String,
    pub replace: String,
}

impl Clone for Pattern {
    /// The clone holds the same templates.
    fn clone(&self) -> (r: Self)
        ensures
            r.search@ == self.search@,
            r.replace@ == self.replace@,
    {
        Pattern { search: self.search.clone(), replace: self.replace.clone() }
    }
}

impl Pattern {
    /// Compiles the search template as a regular expression, exactly when
    /// the regex crate accepts it; the error carries the pattern.
    pub fn build_regex(&self) -> (r: Result<regex::Regex, Error>)
        ensures
            r is Ok <==> rex::regex_ok(self.search@),
            r is Ok ==> rex::pattern_of(r->Ok_0) == self.search@,
            r is Err ==> r->Err_0 is RegexCompile && r->Err_0->RegexCompile_0@ == self.search@,
    {
        match rex::compile(self.search.as_str()) {
            Some(re) => Ok(re),
            None => Err(Error::RegexCompile(self.search.clone())),
        }
    }

    /// The replacement template with `{{version}}` and `{{date}}` expanded
    /// from the given values.
    pub fn replaced_text(&self, version: &str, date: &Date) -> (r: String)
        requires
            date.wf(),
        ensures
            r@ == template::expand_date(
                template::expand_version(self.replace@, version@),
                date::yyyy_mm_dd(*date),
            ),
    {
        let a = template::expand_version_exec(self.replace.as_str(), version);
        let datestr = date.format_yyyy_mm_dd();
        template::expand_date_exec(a.as_str(), datestr.as_str())
    }
}

} // verus!
