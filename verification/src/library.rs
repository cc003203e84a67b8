//! The resolved-dependency value type and its origins.

use vstd::prelude::*;
use crate::sorting::define_views;
use crate::strutil::views;

verus! {

/// From where the settings of a resolved library have been retrieved.
#[derive(Debug, PartialEq, Eq, Structural, Clone, Copy)]
pub enum Source {
    /// Settings have been retrieved from `pkg-config`.
    PkgConfig,
    /// Settings have been defined using user-defined environment variables.
    EnvVariables,
}

/// The mathematical content of a `Library`: every field as a sequence of
/// characters or of such sequences.
#[verifier::ext_equal]
pub struct LibView {
    pub name: Seq<char>,
    pub source: Source,
    pub libs: Seq<Seq<char>>,
    pub link_paths: Seq<Seq<char>>,
    pub frameworks: Seq<Seq<char>>,
    pub framework_paths: Seq<Seq<char>>,
    pub include_paths: Seq<Seq<char>>,
    pub defines: Seq<(Seq<char>, Option<Seq<char>>)>,
    pub version: Seq<char>,
}

/// A resolved system dependency.
#[derive(Debug)]
pub struct Library {
    /// Name of the library.
    pub name: String,
    /// From where the library settings have been retrieved.
    pub source: Source,
    /// Libraries the linker should link on.
    pub libs: Vec<String>,
    /// Directories where the compiler should look for libraries.
    pub link_paths: Vec<String>,
    /// Frameworks the linker should link on.
    pub frameworks: Vec<String>,
    /// Directories where the compiler should look for frameworks.
    pub framework_paths: Vec<String>,
    /// Directories where the compiler should look for header files.
    pub include_paths: Vec<String>,
    /// Macros that should be defined by the compiler.
    pub defines: Vec<(String, Option<String>)>,
    /// Library version.
    pub version: String,
}

impl View for Library {
    type V = LibView;

    open spec fn view(&self) -> LibView {
        LibView {
            name: self.name@,
            source: self.source,
            libs: views(self.libs@),
            link_paths: views(self.link_paths@),
            frameworks: views(self.frameworks@),
            framework_paths: views(self.framework_paths@),
            include_paths: views(self.include_paths@),
            defines: define_views(self.defines@),
            version: self.version@,
        }
    }
}

/// The descriptor a no-discovery override starts from: everything empty, to
/// be filled by the override pass.
pub open spec fn env_lib_view(name: Seq<char>) -> LibView {
    LibView {
        name: name,
        source: Source::EnvVariables,
        libs: Seq::empty(),
        link_paths: Seq::empty(),
        frameworks: Seq::empty(),
        framework_paths: Seq::empty(),
        include_paths: Seq::empty(),
        defines: Seq::empty(),
        version: Seq::empty(),
    }
}

impl Library {
    /// The empty descriptor of a dependency whose discovery is disabled; its
    /// fields come from the environment-override pass alone.
    pub fn from_env_variables(name: &str) -> (r: Self)
        ensures
            r@ == env_lib_view(name@),
    {
        let r = Library {
            name: name.to_owned(),
            source: Source::EnvVariables,
            libs: Vec::new(),
            link_paths: Vec::new(),
            frameworks: Vec::new(),
            framework_paths: Vec::new(),
            include_paths: Vec::new(),
            defines: Vec::new(),
            version: String::new(),
        };
        proof {
            assert(views(r.libs@) =~= Seq::<Seq<char>>::empty());
            assert(views(r.link_paths@) =~= Seq::<Seq<char>>::empty());
            assert(views(r.frameworks@) =~= Seq::<Seq<char>>::empty());
            assert(views(r.framework_paths@) =~= Seq::<Seq<char>>::empty());
            assert(views(r.include_paths@) =~= Seq::<Seq<char>>::empty());
            assert(define_views(r.defines@) =~= Seq::<(Seq<char>, Option<Seq<char>>)>::empty());
        }
        r
    }

    /// A descriptor built from what the discovery tool reported: the name is
    /// the probed library name, the origin tag says so, and every other field
    /// is taken from the report.
    pub fn from_pkg_config(name: &str, p: ProbedLib) -> (r: Self)
        ensures
            r@ == (LibView {
                name: name@,
                source: Source::PkgConfig,
                libs: views(p.libs@),
                link_paths: views(p.link_paths@),
                frameworks: views(p.frameworks@),
                framework_paths: views(p.framework_paths@),
                include_paths: views(p.include_paths@),
                defines: define_views(p.defines@),
                version: p.version@,
            }),
    {
        Library {
            name: name.to_owned(),
            source: Source::PkgConfig,
            libs: p.libs,
            link_paths: p.link_paths,
            frameworks: p.frameworks,
            framework_paths: p.framework_paths,
            include_paths: p.include_paths,
            defines: p.defines,
            version: p.version,
        }
    }
}

// ---------------------------------------------------------------------------
// The external discovery tool
// ---------------------------------------------------------------------------

/// What the discovery tool reported for one library, as plain values: link
/// libraries, search paths, frameworks and their search paths, header paths,
/// preprocessor defines, and the installed version.
#[derive(Debug)]
pub struct ProbedLib {
    pub libs: Vec<String>,
    pub link_paths: Vec<String>,
    pub frameworks: Vec<String>,
    pub framework_paths: Vec<String>,
    pub include_paths: Vec<String>,
    pub defines: Vec<(String, Option<String>)>,
    pub version: String,
}

/// Relies on `pkg_config::Config::probe` (with `atleast_version`,
/// `print_system_libs(false)`, `cargo_metadata(true)` and `statik(true)`, as
/// a build script uses it): runs the external `pkg-config` tool to look up
/// `name` at version at least `version`, handing back its report as plain
/// values, or its failure rendered through its `Display` implementation.
/// The outcome depends on the host system, so nothing is assumed of it.
#[verifier::external_body]
pub(crate) fn pkg_config_probe(name: &str, version: &str) -> Result<ProbedLib, String> {
    match pkg_config::Config::new().atleast_version(version).print_system_libs(false)
        .cargo_metadata(true).statik(true).probe(name)
    {
        Ok(l) => Ok(ProbedLib {
            libs: l.libs,
            link_paths: l.link_paths.iter().map(|p| p.to_string_lossy().into_owned()).collect(),
            frameworks: l.frameworks,
            framework_paths: l.framework_paths.iter().map(|p| p.to_string_lossy().into_owned()).collect(),
            include_paths: l.include_paths.iter().map(|p| p.to_string_lossy().into_owned()).collect(),
            defines: l.defines.into_iter().collect(),
            version: l.version,
        }),
        Err(e) => Err(format!("{}", e)),
    }
}

} // verus!
