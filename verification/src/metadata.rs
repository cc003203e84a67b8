//! The manifest entries, as the external manifest parser yields them.

use vstd::prelude::*;
use crate::strutil::{replace_char, seq_replace};

verus! {

/// A feature-gated alternate version, name and optionality for an entry.
#[derive(Debug)]
pub struct VersionOverride {
    /// The feature gate that enables this override.
    pub key: String,
    /// The version to require when it is enabled.
    pub version: String,
    /// A replacement library name, if any.
    pub name: Option<String>,
    /// A replacement for the entry's "optional" flag, if any.
    pub optional: Option<bool>,
}

/// One declared native-library dependency.
#[derive(Debug)]
pub struct Dependency {
    /// The unique manifest key of this entry.
    pub key: String,
    /// The default minimum version; required unless an enabled override
    /// supplies one.
    pub version: Option<String>,
    /// The declared library name; defaults to the key with separators
    /// normalized.
    pub name: Option<String>,
    /// A feature gate on the whole entry.
    pub feature: Option<String>,
    /// Whether a discovery failure skips the entry instead of failing.
    pub optional: bool,
    /// A target-configuration expression gating the entry.
    pub cfg: Option<String>,
    /// The ordered feature-gated version overrides.
    pub version_overrides: Vec<VersionOverride>,
}

/// The ordered manifest entries of one resolution run.
#[derive(Debug)]
pub struct MetaData {
    /// The entries, in manifest order.
    pub deps: Vec<Dependency>,
}

impl Dependency {
    /// The library name this entry declares: the explicit name, or the key
    /// with underscores normalized to dashes.
    pub open spec fn lib_name_spec(&self) -> Seq<char> {
        match self.name {
            Some(n) => n@,
            None => seq_replace(self.key@, '_', '-'),
        }
    }

    /// The library name to request for this entry.
    pub fn lib_name(&self) -> (r: String)
        ensures
            r@ == self.lib_name_spec(),
    {
        match &self.name {
            Some(n) => n.clone(),
            None => replace_char(self.key.as_str(), '_', '-'),
        }
    }
}

} // verus!
