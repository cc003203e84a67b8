//! The error taxonomy of resolution.  Every fatal condition names the
//! offending dependency key and, where relevant, the environment variable or
//! version strings involved.

use vstd::prelude::*;
use crate::envvars::env_var_name;

verus! {

/// Error returned by an internal-build hook.
#[derive(Debug)]
pub enum BuildInternalClosureError {
    /// The rendered message of a `pkg-config` failure.
    PkgConfig(String),
    /// General failure.
    Failed(String),
}

impl BuildInternalClosureError {
    /// A general failure with human-readable details.
    pub fn failed(details: &str) -> (r: Self)
        ensures
            r matches BuildInternalClosureError::Failed(d) && d@ == details@,
    {
        BuildInternalClosureError::Failed(details.to_owned())
    }

    pub open spec fn message_spec(&self) -> Seq<char> {
        match self {
            BuildInternalClosureError::PkgConfig(s) => s@,
            BuildInternalClosureError::Failed(s) => s@,
        }
    }

    /// The human-readable description of this failure.
    pub fn message(&self) -> (r: String)
        ensures
            r@ == self.message_spec(),
    {
        match self {
            BuildInternalClosureError::PkgConfig(s) => s.clone(),
            BuildInternalClosureError::Failed(s) => s.clone(),
        }
    }
}

/// Everything that can end a resolution run.
#[derive(Debug)]
pub enum Error {
    /// The rendered message of a `pkg-config` failure.
    PkgConfig(String),
    /// An internal-build hook failed: dependency key and cause.
    BuildInternalClosureError(String, BuildInternalClosureError),
    /// The manifest could not be read.
    FailToRead(String),
    /// The metadata in the manifest is malformed.
    InvalidMetadata(String),
    /// A dependency whose discovery was disabled defined neither link
    /// libraries nor frameworks.
    MissingLib(String),
    /// A build-internal environment variable held an invalid value.
    BuildInternalInvalid(String),
    /// An internal build was requested but no hook is registered: key and
    /// required version.
    BuildInternalNoClosure(String, String),
    /// The internally built library is older than required: key, actual
    /// version, required version.
    BuildInternalWrongVersion(String, String, String),
    /// The target-configuration expression uses an unsupported predicate.
    UnsupportedCfg(String),
}

impl Error {
    pub open spec fn message_spec(&self) -> Seq<char> {
        match self {
            Error::PkgConfig(s) => s@,
            Error::BuildInternalClosureError(n, e) => "Failed to build "@ + n@ + ": "@
                + e.message_spec(),
            Error::FailToRead(s) => s@,
            Error::InvalidMetadata(s) => s@,
            Error::MissingLib(l) => "You should define at least one lib using "@ + env_var_name(
                Some(l@),
                "LIB"@,
            ) + " or "@ + env_var_name(Some(l@), "LIB_FRAMEWORK"@),
            Error::BuildInternalInvalid(s) => s@,
            Error::BuildInternalNoClosure(n, v) => "Missing build internal closure for "@ + n@
                + " (version "@ + v@ + ")"@,
            Error::BuildInternalWrongVersion(n, a, r) => "Internally built "@ + n@ + " "@ + a@
                + " but minimum required version is "@ + r@,
            Error::UnsupportedCfg(s) => "Unsupported cfg() expression: "@ + s@,
        }
    }

    /// The human-readable description of this error.
    pub fn message(&self) -> (r: String)
        ensures
            r@ == self.message_spec(),
    {
        match self {
            Error::PkgConfig(s) => s.clone(),
            Error::BuildInternalClosureError(n, e) => {
                let mut m = ("Failed to build ").to_owned();
                m.append(n.as_str());
                m.append(": ");
                let em = e.message();
                m.append(em.as_str());
                m
            },
            Error::FailToRead(s) => s.clone(),
            Error::InvalidMetadata(s) => s.clone(),
            Error::MissingLib(l) => {
                let mut m = ("You should define at least one lib using ").to_owned();
                let v1 = crate::envvars::EnvVariable::new_lib(l.as_str()).var_name();
                m.append(v1.as_str());
                m.append(" or ");
                let v2 = crate::envvars::EnvVariable::new_lib_framework(l.as_str()).var_name();
                m.append(v2.as_str());
                m
            },
            Error::BuildInternalInvalid(s) => s.clone(),
            Error::BuildInternalNoClosure(n, v) => {
                let mut m = ("Missing build internal closure for ").to_owned();
                m.append(n.as_str());
                m.append(" (version ");
                m.append(v.as_str());
                m.append(")");
                m
            },
            Error::BuildInternalWrongVersion(n, a, r) => {
                let mut m = ("Internally built ").to_owned();
                m.append(n.as_str());
                m.append(" ");
                m.append(a.as_str());
                m.append(" but minimum required version is ");
                m.append(r.as_str());
                m
            },
            Error::UnsupportedCfg(s) => {
                let mut m = ("Unsupported cfg() expression: ").to_owned();
                m.append(s.as_str());
                m
            },
        }
    }
}

} // verus!
