//! Declarative resolution of native-library dependencies.
//!
//! A manifest lists named native libraries, each with a required minimum
//! version, optional feature gating, optional target-configuration gating
//! and optional per-feature version overrides.  The resolution engine
//! decides, for each entry, whether it applies to the current build, which
//! version and library name to request, and how to obtain it: through the
//! external `pkg-config` discovery tool, from user-supplied environment
//! variables, or from a caller-registered internal-build hook.  The
//! resolved descriptors then pass through an environment-variable override
//! pass and are aggregated into a deterministic stream of build directives.

pub mod strutil;
pub mod sorting;
pub mod envvars;
pub mod error;
pub mod library;
pub mod metadata;
pub mod deps;
pub mod flags;
pub mod resolve;
pub mod laws;

pub use deps::Dependencies;
pub use envvars::{EnvVariable, EnvVariables};
pub use error::{BuildInternalClosureError, Error};
pub use flags::{BuildFlag, BuildFlags};
pub use library::{Library, ProbedLib, Source};
pub use metadata::{Dependency, MetaData, VersionOverride};
pub use resolve::{BuildInternal, BuildInternalHook, Config, NoBuildHook};
