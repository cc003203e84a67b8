//! The environment accessor and the names of the environment variables that
//! tune resolution.
//!
//! The accessor is an injectable key/value table: production callers fill it
//! from the process environment, tests from a fixed list.  Lookup
//! distinguishes an absent variable from one set to the empty string.

use vstd::prelude::*;
use crate::strutil::{assoc_get, seq_replace, upper_of};
use heck::{ToShoutySnakeCase, ToSnakeCase};

verus! {

// ---------------------------------------------------------------------------
// Case conversion for variable names, through heck
// ---------------------------------------------------------------------------

/// What `heck`'s shouty-snake conversion returns: a function of the
/// characters alone.
pub uninterp spec fn shouty_snake_of(s: Seq<char>) -> Seq<char>;

/// Relies on `heck::ToShoutySnakeCase::to_shouty_snake_case`: the
/// SHOUTY_SNAKE_CASE form of the string, determined by the characters alone.
#[verifier::external_body]
pub(crate) fn shouty_snake(s: &str) -> (r: String)
    ensures
        r@ == shouty_snake_of(s@),
{
    s.to_shouty_snake_case()
}

/// What `heck`'s snake conversion returns: a function of the characters
/// alone.
pub uninterp spec fn snake_of(s: Seq<char>) -> Seq<char>;

/// Relies on `heck::ToSnakeCase::to_snake_case`: the snake_case form of the
/// string, determined by the characters alone.
#[verifier::external_body]
pub(crate) fn snake(s: &str) -> (r: String)
    ensures
        r@ == snake_of(s@),
{
    s.to_snake_case()
}

// ---------------------------------------------------------------------------
// The environment accessor
// ---------------------------------------------------------------------------

/// An injectable table of environment variables.  The first pair with a
/// given key wins, as in the process environment, where keys are unique.
pub struct EnvVariables {
    vars: Vec<(String, String)>,
}

/// The views of a list of key/value pairs.
pub open spec fn pair_views(s: Seq<(String, String)>) -> Seq<(Seq<char>, Seq<char>)> {
    s.map_values(|p: (String, String)| (p.0@, p.1@))
}

impl View for EnvVariables {
    type V = Seq<(Seq<char>, Seq<char>)>;

    closed spec fn view(&self) -> Seq<(Seq<char>, Seq<char>)> {
        pair_views(self.vars@)
    }
}

impl EnvVariables {
    /// An accessor over the given pairs.
    pub fn from_pairs(pairs: Vec<(String, String)>) -> (r: Self)
        ensures
            r@ == pair_views(pairs@),
    {
        EnvVariables { vars: pairs }
    }

    /// The value of the variable `name`, or `None` if it is not set.
    pub fn get(&self, name: &str) -> (r: Option<String>)
        ensures
            r is Some <==> assoc_get(self@, name@) is Some,
            r matches Some(v) ==> assoc_get(self@, name@) == Some(v@),
    {
        let key = name.to_owned();
        let mut i: usize = 0;
        proof {
            assert(self@.skip(0) =~= self@);
        }
        while i < self.vars.len()
            invariant
                0 <= i <= self.vars@.len(),
                self@ == pair_views(self.vars@),
                key@ == name@,
                assoc_get(self@, name@) == assoc_get(self@.skip(i as int), name@),
            decreases self.vars@.len() - i,
        {
            if self.vars[i].0 == key {
                proof {
                    assert(self@.skip(i as int)[0] == self@[i as int]);
                }
                return Some(self.vars[i].1.clone());
            }
            proof {
                assert(self@.skip(i as int)[0] == self@[i as int]);
                assert(self@.skip(i as int).drop_first() =~= self@.skip(i as int + 1));
            }
            i = i + 1;
        }
        proof {
            assert(self@.skip(i as int) =~= Seq::<(Seq<char>, Seq<char>)>::empty());
        }
        None
    }

    /// Whether the variable `name` is set, possibly to the empty string.
    pub fn contains(&self, name: &str) -> (r: bool)
        ensures
            r == (assoc_get(self@, name@) is Some),
    {
        self.get(name).is_some()
    }

    /// The value of the given tuning variable.
    pub fn get_var(&self, var: &EnvVariable) -> (r: Option<String>)
        ensures
            r is Some <==> assoc_get(self@, var.name_spec()) is Some,
            r matches Some(v) ==> assoc_get(self@, var.name_spec()) == Some(v@),
    {
        let name = var.var_name();
        self.get(name.as_str())
    }

    /// Whether the given tuning variable is set.
    pub fn contains_var(&self, var: &EnvVariable) -> (r: bool)
        ensures
            r == (assoc_get(self@, var.name_spec()) is Some),
    {
        self.get_var(var).is_some()
    }
}

// ---------------------------------------------------------------------------
// The tuning variables
// ---------------------------------------------------------------------------

/// The name of a per-dependency tuning variable, or of the global
/// build-internal one when `lib` is `None`.
pub open spec fn env_var_name(lib: Option<Seq<char>>, suffix: Seq<char>) -> Seq<char> {
    match lib {
        Some(l) => "SYSTEM_DEPS_"@ + shouty_snake_of(l) + "_"@ + suffix,
        None => "SYSTEM_DEPS_"@ + suffix,
    }
}

/// The name of the ambient variable that marks a feature as enabled.
pub open spec fn feature_var_name(feature: Seq<char>) -> Seq<char> {
    "CARGO_FEATURE_"@ + seq_replace(upper_of(feature), '-', '_')
}

/// One environment variable a user can set to tune the resolution of a
/// dependency.
#[derive(Debug)]
pub enum EnvVariable {
    Lib(String),
    LibFramework(String),
    SearchNative(String),
    SearchFramework(String),
    Include(String),
    NoPkgConfig(String),
    BuildInternal(Option<String>),
}

impl EnvVariable {
    pub fn new_lib(lib: &str) -> (r: Self)
        ensures
            r matches EnvVariable::Lib(l) && l@ == lib@,
    {
        EnvVariable::Lib(lib.to_owned())
    }

    pub fn new_lib_framework(lib: &str) -> (r: Self)
        ensures
            r matches EnvVariable::LibFramework(l) && l@ == lib@,
    {
        EnvVariable::LibFramework(lib.to_owned())
    }

    pub fn new_search_native(lib: &str) -> (r: Self)
        ensures
            r matches EnvVariable::SearchNative(l) && l@ == lib@,
    {
        EnvVariable::SearchNative(lib.to_owned())
    }

    pub fn new_search_framework(lib: &str) -> (r: Self)
        ensures
            r matches EnvVariable::SearchFramework(l) && l@ == lib@,
    {
        EnvVariable::SearchFramework(lib.to_owned())
    }

    pub fn new_include(lib: &str) -> (r: Self)
        ensures
            r matches EnvVariable::Include(l) && l@ == lib@,
    {
        EnvVariable::Include(lib.to_owned())
    }

    pub fn new_no_pkg_config(lib: &str) -> (r: Self)
        ensures
            r matches EnvVariable::NoPkgConfig(l) && l@ == lib@,
    {
        EnvVariable::NoPkgConfig(lib.to_owned())
    }

    pub fn new_build_internal(lib: Option<&str>) -> (r: Self)
        ensures
            lib matches Some(l) ==> (r matches EnvVariable::BuildInternal(o) && o matches Some(s)
                && s@ == l@),
            lib is None ==> (r matches EnvVariable::BuildInternal(o) && o is None),
    {
        match lib {
            Some(l) => EnvVariable::BuildInternal(Some(l.to_owned())),
            None => EnvVariable::BuildInternal(None),
        }
    }

    /// The dependency this variable tunes, if any.
    pub open spec fn lib_spec(&self) -> Option<Seq<char>> {
        match self {
            EnvVariable::Lib(l) => Some(l@),
            EnvVariable::LibFramework(l) => Some(l@),
            EnvVariable::SearchNative(l) => Some(l@),
            EnvVariable::SearchFramework(l) => Some(l@),
            EnvVariable::Include(l) => Some(l@),
            EnvVariable::NoPkgConfig(l) => Some(l@),
            EnvVariable::BuildInternal(o) => match o {
                Some(l) => Some(l@),
                None => None,
            },
        }
    }

    pub open spec fn suffix_spec(&self) -> Seq<char> {
        match self {
            EnvVariable::Lib(_) => "LIB"@,
            EnvVariable::LibFramework(_) => "LIB_FRAMEWORK"@,
            EnvVariable::SearchNative(_) => "SEARCH_NATIVE"@,
            EnvVariable::SearchFramework(_) => "SEARCH_FRAMEWORK"@,
            EnvVariable::Include(_) => "INCLUDE"@,
            EnvVariable::NoPkgConfig(_) => "NO_PKG_CONFIG"@,
            EnvVariable::BuildInternal(_) => "BUILD_INTERNAL"@,
        }
    }

    /// The full name of this variable.
    pub open spec fn name_spec(&self) -> Seq<char> {
        env_var_name(self.lib_spec(), self.suffix_spec())
    }

    pub fn suffix(&self) -> (r: &'static str)
        ensures
            r@ == self.suffix_spec(),
    {
        match self {
            EnvVariable::Lib(_) => "LIB",
            EnvVariable::LibFramework(_) => "LIB_FRAMEWORK",
            EnvVariable::SearchNative(_) => "SEARCH_NATIVE",
            EnvVariable::SearchFramework(_) => "SEARCH_FRAMEWORK",
            EnvVariable::Include(_) => "INCLUDE",
            EnvVariable::NoPkgConfig(_) => "NO_PKG_CONFIG",
            EnvVariable::BuildInternal(_) => "BUILD_INTERNAL",
        }
    }

    /// The full name of this variable, `SYSTEM_DEPS_` followed by the
    /// shouty-snake dependency key, if any, and the suffix.
    pub fn var_name(&self) -> (r: String)
        ensures
            r@ == self.name_spec(),
    {
        let mut s = ("SYSTEM_DEPS_").to_owned();
        match self {
            EnvVariable::Lib(l)
            | EnvVariable::LibFramework(l)
            | EnvVariable::SearchNative(l)
            | EnvVariable::SearchFramework(l)
            | EnvVariable::Include(l)
            | EnvVariable::NoPkgConfig(l)
            | EnvVariable::BuildInternal(Some(l)) => {
                let sh = shouty_snake(l.as_str());
                s.append(sh.as_str());
                s.append("_");
            },
            EnvVariable::BuildInternal(None) => {},
        }
        s.append(self.suffix());
        s
    }
}

} // verus!
