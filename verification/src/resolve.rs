//! The resolution engine: feature-conditional version selection,
//! target-configuration gating, and the discovery/fallback/override decision
//! procedure for every manifest entry.

use vstd::prelude::*;
use crate::deps::Dependencies;
use crate::envvars::{env_var_name, feature_var_name, EnvVariable, EnvVariables};
use crate::error::{BuildInternalClosureError, Error};
use crate::library::{env_lib_view, pkg_config_probe, LibView, Library};
use crate::metadata::{Dependency, MetaData, VersionOverride};
use crate::strutil::{
    assoc_get, assoc_put, lemma_assoc_get_present, lemma_assoc_get_skip, lemma_assoc_put_absent,
    lemma_assoc_put_found, lemma_assoc_put_keys, replace_char, to_upper,
};

verus! {

// ---------------------------------------------------------------------------
// The build-internal mode
// ---------------------------------------------------------------------------

/// When the internal build of a dependency runs: only as a fallback after a
/// failed discovery, unconditionally, or never.
#[derive(Debug, PartialEq, Eq, Structural, Clone, Copy)]
pub enum BuildInternal {
    /// Build internally only if discovery does not find the version.
    Auto,
    /// Always build internally, ignoring anything installed.
    Always,
    /// Never build internally; fail when discovery fails.
    Never,
}

impl Default for BuildInternal {
    /// The default mode when no environment variable chooses one.
    fn default() -> (r: Self)
        ensures
            r == BuildInternal::Never,
    {
        BuildInternal::Never
    }
}

/// The mode a literal names, if any.
pub open spec fn build_internal_of(s: Seq<char>) -> Option<BuildInternal> {
    if s == "auto"@ {
        Some(BuildInternal::Auto)
    } else if s == "always"@ {
        Some(BuildInternal::Always)
    } else if s == "never"@ {
        Some(BuildInternal::Never)
    } else {
        None
    }
}

impl BuildInternal {
    /// Parse one of the three recognized mode literals.
    pub fn from_str(s: &str) -> (r: Option<Self>)
        ensures
            r == build_internal_of(s@),
    {
        let t = s.to_owned();
        if t == ("auto").to_owned() {
            Some(BuildInternal::Auto)
        } else if t == ("always").to_owned() {
            Some(BuildInternal::Always)
        } else if t == ("never").to_owned() {
            Some(BuildInternal::Never)
        } else {
            None
        }
    }
}

/// The message of an invalid mode value: it names the variable and the value.
pub open spec fn invalid_mode_message(name: Seq<char>, value: Seq<char>) -> Seq<char> {
    "Invalid value in "@ + name + ": "@ + value + " (allowed: 'auto', 'always', 'never')"@
}

/// The build-internal mode of one key: the per-key variable wins, then the
/// global one, then the default.  An unparsable value is an error naming the
/// variable and the value.
pub open spec fn mode_lookup(env: Seq<(Seq<char>, Seq<char>)>, key: Seq<char>) -> Result<
    BuildInternal,
    (Seq<char>, Seq<char>),
> {
    match assoc_get(env, env_var_name(Some(key), "BUILD_INTERNAL"@)) {
        Some(s) => match build_internal_of(s) {
            Some(b) => Ok(b),
            None => Err((env_var_name(Some(key), "BUILD_INTERNAL"@), s)),
        },
        None => match assoc_get(env, env_var_name(None, "BUILD_INTERNAL"@)) {
            Some(s) => match build_internal_of(s) {
                Some(b) => Ok(b),
                None => Err((env_var_name(None, "BUILD_INTERNAL"@), s)),
            },
            None => Ok(BuildInternal::Never),
        },
    }
}

// ---------------------------------------------------------------------------
// The version comparator, through version-compare
// ---------------------------------------------------------------------------

/// The outcome of comparing two version strings.
#[derive(Debug, PartialEq, Eq, Structural, Clone, Copy)]
pub enum VersionCmp {
    Eq,
    Ne,
    Lt,
    Le,
    Ge,
    Gt,
}

/// What `version_compare::compare` returns: a function of the two strings
/// alone; `None` when either string is no version number.
pub uninterp spec fn version_cmp_of(a: Seq<char>, b: Seq<char>) -> Option<VersionCmp>;

/// Relies on `version_compare::compare`: how version `a` stands to version
/// `b`, or `None` when either fails to parse.
#[verifier::external_body]
pub(crate) fn version_cmp(a: &str, b: &str) -> (r: Option<VersionCmp>)
    ensures
        r == version_cmp_of(a@, b@),
{
    match version_compare::compare(a, b) {
        Ok(version_compare::Cmp::Eq) => Some(VersionCmp::Eq),
        Ok(version_compare::Cmp::Ne) => Some(VersionCmp::Ne),
        Ok(version_compare::Cmp::Lt) => Some(VersionCmp::Lt),
        Ok(version_compare::Cmp::Le) => Some(VersionCmp::Le),
        Ok(version_compare::Cmp::Ge) => Some(VersionCmp::Ge),
        Ok(version_compare::Cmp::Gt) => Some(VersionCmp::Gt),
        Err(()) => None,
    }
}

// ---------------------------------------------------------------------------
// The target predicate matcher, through cfg-expr
// ---------------------------------------------------------------------------

/// The outcome of evaluating a target-configuration expression against a
/// target triple.
#[derive(Debug, PartialEq, Eq, Structural, Clone, Copy)]
pub enum CfgEval {
    /// The expression matches the target.
    Match,
    /// The expression does not match the target.
    NoMatch,
    /// The expression uses a predicate that is not a target predicate.
    Unsupported,
    /// The expression does not parse.
    BadExpression,
    /// The triple names no builtin target.
    BadTarget,
}

/// What the evaluation returns: a function of the two strings alone.
pub uninterp spec fn cfg_eval_of(expr: Seq<char>, target: Seq<char>) -> CfgEval;

/// Relies on `cfg_expr::targets::get_builtin_target_by_triple`,
/// `cfg_expr::Expression::parse` and `cfg_expr::Expression::eval`: whether
/// the expression matches the builtin description of the target triple,
/// with non-target predicates left undecided.  All three are functions of
/// their inputs alone (the builtin target table is fixed), so the outcome
/// depends on the two strings alone.
#[verifier::external_body]
pub(crate) fn cfg_eval(expr: &str, target: &str) -> (r: CfgEval)
    ensures
        r == cfg_eval_of(expr@, target@),
{
    match cfg_expr::targets::get_builtin_target_by_triple(target) {
        None => CfgEval::BadTarget,
        Some(t) => match cfg_expr::Expression::parse(expr) {
            Err(_) => CfgEval::BadExpression,
            Ok(e) => match e.eval(|p| match p {
                cfg_expr::Predicate::Target(tp) => Some(tp.matches(t)),
                _ => None,
            }) {
                Some(true) => CfgEval::Match,
                Some(false) => CfgEval::NoMatch,
                None => CfgEval::Unsupported,
            },
        },
    }
}

// ---------------------------------------------------------------------------
// The internal-build hook registry
// ---------------------------------------------------------------------------

/// A caller-registered routine that builds one library internally.  It is
/// handed the library name and the minimum version, and is consumed on use:
/// the registry never calls the same hook twice.
pub trait BuildInternalHook: Sized {
    /// Build the library `name` at version at least `version`.
    fn build(self, name: &str, version: &str) -> Result<Library, BuildInternalClosureError>;
}

/// The hook type of a configuration that registers no hooks.
#[derive(Debug)]
pub struct NoBuildHook;

impl BuildInternalHook for NoBuildHook {
    fn build(self, name: &str, version: &str) -> Result<Library, BuildInternalClosureError> {
        let _ = name;
        let _ = version;
        Err(BuildInternalClosureError::failed("no internal build hook registered"))
    }
}

// ---------------------------------------------------------------------------
// The configuration
// ---------------------------------------------------------------------------

/// Configuration of one resolution run: the environment accessor and the
/// registry of internal-build hooks, keyed by manifest key.
pub struct Config<H: BuildInternalHook> {
    env: EnvVariables,
    build_internals: Vec<(String, Option<H>)>,
}

impl<H: BuildInternalHook> Config<H> {
    /// The environment this run reads.
    pub closed spec fn env_spec(&self) -> Seq<(Seq<char>, Seq<char>)> {
        self.env@
    }

    /// The registry: each key with whether its hook is still unconsumed.
    pub closed spec fn registry(&self) -> Seq<(Seq<char>, bool)> {
        self.build_internals@.map_values(|p: (String, Option<H>)| (p.0@, p.1 is Some))
    }

    /// Whether an unconsumed hook is registered under `key`.
    pub open spec fn hook_registered(&self, key: Seq<char>) -> bool {
        assoc_get(self.registry(), key) == Some(true)
    }

    /// A configuration reading the given environment, with no hooks.
    pub fn new_with_env(env: EnvVariables) -> (r: Self)
        ensures
            r.env_spec() == env@,
            r.registry() == Seq::<(Seq<char>, bool)>::empty(),
    {
        let r = Config { env, build_internals: Vec::new() };
        proof {
            assert(r.registry() =~= Seq::<(Seq<char>, bool)>::empty());
        }
        r
    }

    /// The position of the registry entry under `name`, if any.
    fn find_hook_index(&self, name: &str) -> (r: Option<usize>)
        ensures
            r matches Some(j) ==> 0 <= j < self.registry().len() && self.registry()[j as int].0
                == name@ && forall|p: int| 0 <= p < j ==> self.registry()[p].0 != name@,
            r is None ==> forall|p: int| 0 <= p < self.registry().len() ==> self.registry()[p].0
                != name@,
    {
        let key = name.to_owned();
        let mut i: usize = 0;
        while i < self.build_internals.len()
            invariant
                0 <= i <= self.build_internals@.len(),
                self.registry().len() == self.build_internals@.len(),
                key@ == name@,
                forall|p: int| 0 <= p < i ==> self.registry()[p].0 != name@,
            decreases self.build_internals@.len() - i,
        {
            if self.build_internals[i].0 == key {
                return Some(i);
            }
            i = i + 1;
        }
        None
    }

    /// Register `hook` to build the dependency `name` internally when the
    /// build-internal mode asks for it.  A second registration under the
    /// same key replaces the first.
    pub fn add_build_internal(self, name: &str, hook: H) -> (r: Self)
        ensures
            r.env_spec() == self.env_spec(),
            r.registry() == assoc_put(self.registry(), name@, true),
    {
        let ghost orig = self.registry();
        let mut s = self;
        match s.find_hook_index(name) {
            Some(j) => {
                proof {
                    lemma_assoc_put_found(orig, name@, true, j as int);
                }
                let ghost before = s.build_internals@;
                s.build_internals.set(j, (name.to_owned(), Some(hook)));
                proof {
                    assert forall|p: int| 0 <= p < s.registry().len() implies s.registry()[p]
                        == orig.update(j as int, (name@, true))[p] by {
                        if p != j {
                            assert(s.build_internals@[p] == before[p]);
                        }
                    }
                    assert(s.registry() =~= assoc_put(orig, name@, true));
                }
            },
            None => {
                proof {
                    lemma_assoc_put_absent(orig, name@, true);
                }
                let ghost before = s.build_internals@;
                s.build_internals.push((name.to_owned(), Some(hook)));
                proof {
                    assert forall|p: int| 0 <= p < s.registry().len() implies s.registry()[p]
                        == orig.push((name@, true))[p] by {
                        if p < before.len() {
                            assert(s.build_internals@[p] == before[p]);
                        }
                    }
                    assert(s.registry() =~= assoc_put(orig, name@, true));
                }
            },
        }
        s
    }

    /// Whether the ambient feature flag `feature` is enabled.
    pub fn has_feature(&self, feature: &str) -> (r: bool)
        ensures
            r == (assoc_get(self.env_spec(), feature_var_name(feature@)) is Some),
    {
        let upper = to_upper(feature);
        let normalized = replace_char(upper.as_str(), '-', '_');
        let mut var = ("CARGO_FEATURE_").to_owned();
        var.append(normalized.as_str());
        self.env.contains(var.as_str())
    }
}


// ---------------------------------------------------------------------------
// Feature-override selection
// ---------------------------------------------------------------------------

/// The overrides behind a list of references.
pub open spec fn ovs(s: Seq<&VersionOverride>) -> Seq<VersionOverride> {
    s.map_values(|o: &VersionOverride| *o)
}

/// The winner of a left-to-right scan from position `i` with current best
/// `best`: a later override wins unless its version compares strictly
/// lower, so equal versions go to the last of them, as a stable ascending
/// sort that takes the final element would have it.  `None` when a
/// comparison fails.
pub open spec fn pick_rec(s: Seq<VersionOverride>, i: int, best: int) -> Option<int>
    decreases s.len() - i
        when 0 <= i <= s.len()
{
    if i >= s.len() {
        Some(best)
    } else {
        match version_cmp_of(s[i].version@, s[best].version@) {
            None => None,
            Some(c) => if c == VersionCmp::Lt {
                pick_rec(s, i + 1, best)
            } else {
                pick_rec(s, i + 1, i)
            },
        }
    }
}

/// The position of the highest-versioned override of a non-empty list.
pub open spec fn pick_highest_spec(s: Seq<VersionOverride>) -> Option<int> {
    pick_rec(s, 1, 0)
}

/// The version an entry resolves to, given the enabled overrides.
pub open spec fn effective_version(dep: Dependency, enabled: Seq<VersionOverride>) -> Option<
    Seq<char>,
> {
    if enabled.len() == 0 {
        match dep.version {
            Some(v) => Some(v@),
            None => None,
        }
    } else {
        match pick_highest_spec(enabled) {
            Some(j) => Some(enabled[j].version@),
            None => None,
        }
    }
}

/// The library name an entry resolves to, given the enabled overrides.
pub open spec fn effective_name(dep: Dependency, enabled: Seq<VersionOverride>) -> Seq<char> {
    if enabled.len() == 0 {
        dep.lib_name_spec()
    } else {
        match pick_highest_spec(enabled) {
            Some(j) => match enabled[j].name {
                Some(n) => n@,
                None => dep.lib_name_spec(),
            },
            None => dep.lib_name_spec(),
        }
    }
}

/// The optionality an entry resolves to, given the enabled overrides.
pub open spec fn effective_optional(dep: Dependency, enabled: Seq<VersionOverride>) -> bool {
    if enabled.len() == 0 {
        dep.optional
    } else {
        match pick_highest_spec(enabled) {
            Some(j) => match enabled[j].optional {
                Some(b) => b,
                None => dep.optional,
            },
            None => dep.optional,
        }
    }
}

/// Pick the version, library name and optionality of one entry: among the
/// enabled overrides the highest version wins, with ties going to the last
/// declared; with none enabled the entry's own settings stand.  A failing
/// version comparison is fatal, never ignored.
pub fn select_effective<'a>(dep: &Dependency, enabled: &Vec<&'a VersionOverride>) -> (r: Result<
    (Option<String>, String, bool),
    Error,
>)
    ensures
        enabled@.len() > 0 && pick_highest_spec(ovs(enabled@)) is None ==> (r matches Err(e)
            && e matches Error::InvalidMetadata(m) && m@ == "failed to compare versions"@),
        (enabled@.len() == 0 || pick_highest_spec(ovs(enabled@)) is Some) ==> (r matches Ok(t) && (
        match t.0 {
            Some(v) => effective_version(*dep, ovs(enabled@)) == Some(v@),
            None => effective_version(*dep, ovs(enabled@)) is None,
        }) && t.1@ == effective_name(*dep, ovs(enabled@)) && t.2 == effective_optional(
            *dep,
            ovs(enabled@),
        )),
{
    if enabled.len() == 0 {
        let version = match &dep.version {
            Some(v) => Some(v.clone()),
            None => None,
        };
        return Ok((version, dep.lib_name(), dep.optional));
    }
    let ghost s = ovs(enabled@);
    let mut best: usize = 0;
    let mut i: usize = 1;
    while i < enabled.len()
        invariant
            1 <= i <= enabled@.len(),
            0 <= best < i,
            s == ovs(enabled@),
            s.len() == enabled@.len(),
            pick_rec(s, i as int, best as int) == pick_highest_spec(s),
        decreases enabled@.len() - i,
    {
        match version_cmp(enabled[i].version.as_str(), enabled[best].version.as_str()) {
            None => {
                return Err(Error::InvalidMetadata(("failed to compare versions").to_owned()));
            },
            Some(c) => {
                if c == VersionCmp::Lt {
                } else {
                    best = i;
                }
            },
        }
        i = i + 1;
    }
    proof {
        assert(pick_rec(s, i as int, best as int) == Some(best as int));
    }
    let o = enabled[best];
    let version = Some(o.version.clone());
    let name = match &o.name {
        Some(n) => n.clone(),
        None => dep.lib_name(),
    };
    let optional = match o.optional {
        Some(b) => b,
        None => dep.optional,
    };
    Ok((version, name, optional))
}

// ---------------------------------------------------------------------------
// The decision kernels of the discovery procedure
// ---------------------------------------------------------------------------

/// How one entry that passed its gates is to be obtained.
#[derive(Debug, PartialEq, Eq, Structural, Clone, Copy)]
pub enum AcquisitionPlan {
    /// Build the descriptor from environment variables alone.
    UseEnvVariables,
    /// Call the internal-build hook without trying discovery.
    BuildInternally,
    /// Ask the discovery tool.
    Discover,
}

/// The acquisition precedence: a no-discovery override beats everything,
/// the "always" mode beats discovery, and otherwise discovery runs —
/// whether or not it would succeed.
pub fn acquisition_plan(no_pkg_config: bool, mode: BuildInternal) -> (r: AcquisitionPlan)
    ensures
        no_pkg_config ==> r == AcquisitionPlan::UseEnvVariables,
        !no_pkg_config && mode == BuildInternal::Always ==> r == AcquisitionPlan::BuildInternally,
        !no_pkg_config && mode != BuildInternal::Always ==> r == AcquisitionPlan::Discover,
{
    if no_pkg_config {
        AcquisitionPlan::UseEnvVariables
    } else if mode == BuildInternal::Always {
        AcquisitionPlan::BuildInternally
    } else {
        AcquisitionPlan::Discover
    }
}

/// What resolution does when discovery has failed.
#[derive(Debug, PartialEq, Eq, Structural, Clone, Copy)]
pub enum FailureAction {
    /// Try the internal build as a fallback.
    BuildInternally,
    /// Skip the entry silently.
    SkipOptional,
    /// Propagate the discovery failure.
    Propagate,
}

/// After a failed discovery: the "auto" mode falls back to the internal
/// build; otherwise a merely optional entry is skipped; otherwise the
/// failure propagates.  Only a discovery failure is ever downgraded to a
/// skip.
pub fn on_discovery_failure(mode: BuildInternal, optional: bool) -> (r: FailureAction)
    ensures
        mode == BuildInternal::Auto ==> r == FailureAction::BuildInternally,
        mode != BuildInternal::Auto && optional ==> r == FailureAction::SkipOptional,
        mode != BuildInternal::Auto && !optional ==> r == FailureAction::Propagate,
{
    if mode == BuildInternal::Auto {
        FailureAction::BuildInternally
    } else if optional {
        FailureAction::SkipOptional
    } else {
        FailureAction::Propagate
    }
}

/// The message of a version comparison that failed outright.
pub open spec fn compare_fail_message(a: Seq<char>, b: Seq<char>) -> Seq<char> {
    "Failed to compare versions "@ + a + " and "@ + b
}

/// Judge what an internal-build hook handed back: its failure is wrapped
/// with the key; a built version below the requirement is rejected; a
/// version comparison that fails outright is fatal.
pub fn check_internal_result(key: &str, version: &str, res: Result<
    Library,
    BuildInternalClosureError,
>) -> (r: Result<Library, Error>)
    ensures
        match res {
            Err(e) => r matches Err(e2) && e2 matches Error::BuildInternalClosureError(k, c) && k@
                == key@ && c == e,
            Ok(l) => match version_cmp_of(l@.version, version@) {
                None => r matches Err(e2) && e2 matches Error::InvalidMetadata(m) && m@
                    == compare_fail_message(l@.version, version@),
                Some(c) => if c == VersionCmp::Lt {
                    r matches Err(e2) && e2 matches Error::BuildInternalWrongVersion(k, a, v)
                        && k@ == key@ && a@ == l@.version && v@ == version@
                } else {
                    r == Ok::<Library, Error>(l)
                },
            },
        },
{
    match res {
        Err(e) => Err(Error::BuildInternalClosureError(key.to_owned(), e)),
        Ok(l) => match version_cmp(l.version.as_str(), version) {
            None => {
                let mut m = ("Failed to compare versions ").to_owned();
                m.append(l.version.as_str());
                m.append(" and ");
                m.append(version);
                Err(Error::InvalidMetadata(m))
            },
            Some(c) => if c == VersionCmp::Lt {
                Err(
                    Error::BuildInternalWrongVersion(
                        key.to_owned(),
                        l.version.clone(),
                        version.to_owned(),
                    ),
                )
            } else {
                Ok(l)
            },
        },
    }
}

impl<H: BuildInternalHook> Config<H> {
    /// Gate one entry by its target-configuration expression, read against
    /// the `TARGET` triple of the environment.  An expression that cannot
    /// be interpreted is a hard failure, never a silent mismatch.
    pub fn check_cfg(&self, cfg: &str) -> (r: Result<bool, Error>)
        ensures
            assoc_get(self.env_spec(), "TARGET"@) is None ==> (r matches Err(e) && e matches
                Error::InvalidMetadata(m) && m@ == "no TARGET env variable defined"@),
            assoc_get(self.env_spec(), "TARGET"@) matches Some(t) ==> match cfg_eval_of(cfg@, t) {
                CfgEval::Match => r == Ok::<bool, Error>(true),
                CfgEval::NoMatch => r == Ok::<bool, Error>(false),
                CfgEval::Unsupported => r matches Err(e) && e matches Error::UnsupportedCfg(m)
                    && m@ == cfg@,
                CfgEval::BadExpression => r matches Err(e) && e matches Error::InvalidMetadata(m)
                    && m@ == "Invalid cfg() expression: "@ + cfg@,
                CfgEval::BadTarget => r matches Err(e) && e matches Error::InvalidMetadata(m)
                    && m@ == "Invalid TARGET: "@ + t,
            },
    {
        match self.env.get("TARGET") {
            None => Err(Error::InvalidMetadata(("no TARGET env variable defined").to_owned())),
            Some(t) => match cfg_eval(cfg, t.as_str()) {
                CfgEval::Match => Ok(true),
                CfgEval::NoMatch => Ok(false),
                CfgEval::Unsupported => Err(Error::UnsupportedCfg(cfg.to_owned())),
                CfgEval::BadExpression => {
                    let mut m = ("Invalid cfg() expression: ").to_owned();
                    m.append(cfg);
                    Err(Error::InvalidMetadata(m))
                },
                CfgEval::BadTarget => {
                    let mut m = ("Invalid TARGET: ").to_owned();
                    m.append(t.as_str());
                    Err(Error::InvalidMetadata(m))
                },
            },
        }
    }

    /// The build-internal mode one variable holds, if set; an unrecognized
    /// value is fatal and names the variable and the value.
    pub fn get_build_internal_env_var(&self, var: &EnvVariable) -> (r: Result<
        Option<BuildInternal>,
        Error,
    >)
        ensures
            match assoc_get(self.env_spec(), var.name_spec()) {
                None => r == Ok::<Option<BuildInternal>, Error>(None),
                Some(s) => match build_internal_of(s) {
                    Some(b) => r == Ok::<Option<BuildInternal>, Error>(Some(b)),
                    None => r matches Err(e) && e matches Error::BuildInternalInvalid(m) && m@
                        == invalid_mode_message(var.name_spec(), s),
                },
            },
    {
        match self.env.get_var(var) {
            None => Ok(None),
            Some(s) => match BuildInternal::from_str(s.as_str()) {
                Some(b) => Ok(Some(b)),
                None => {
                    let mut m = ("Invalid value in ").to_owned();
                    let name = var.var_name();
                    m.append(name.as_str());
                    m.append(": ");
                    m.append(s.as_str());
                    m.append(" (allowed: 'auto', 'always', 'never')");
                    Err(Error::BuildInternalInvalid(m))
                },
            },
        }
    }

    /// The build-internal mode of one key: per-key variable, then global
    /// variable, then "never".
    pub fn get_build_internal_status(&self, name: &str) -> (r: Result<BuildInternal, Error>)
        ensures
            mode_lookup(self.env_spec(), name@) matches Ok(b) ==> r == Ok::<BuildInternal, Error>(b),
            mode_lookup(self.env_spec(), name@) matches Err(p) ==> (r matches Err(e) && e matches
                Error::BuildInternalInvalid(m) && m@ == invalid_mode_message(p.0, p.1)),
    {
        match self.get_build_internal_env_var(&EnvVariable::new_build_internal(Some(name))) {
            Err(e) => Err(e),
            Ok(Some(b)) => Ok(b),
            Ok(None) => match self.get_build_internal_env_var(
                &EnvVariable::new_build_internal(None),
            ) {
                Err(e) => Err(e),
                Ok(Some(b)) => Ok(b),
                Ok(None) => Ok(BuildInternal::default()),
            },
        }
    }

    /// Invoke the hook registered under `key`, consuming it, and judge its
    /// result; without one the missing-closure error names the key and the
    /// version.
    pub fn call_build_internal(&mut self, key: &str, lib_name: &str, version: &str) -> (r: Result<
        Library,
        Error,
    >)
        ensures
            final(self).env_spec() == old(self).env_spec(),
            !old(self).hook_registered(key@) ==> final(self).registry() == old(self).registry()
                && (r matches Err(e) && e matches Error::BuildInternalNoClosure(k, v) && k@
                == key@ && v@ == version@),
            old(self).hook_registered(key@) ==> final(self).registry() == assoc_put(
                old(self).registry(),
                key@,
                false,
            ),
            r matches Ok(l) ==> (version_cmp_of(l@.version, version@) matches Some(c) && c
                != VersionCmp::Lt),
    {
        match self.find_hook_index(key) {
            None => {
                proof {
                    lemma_assoc_get_present(self.registry(), key@);
                }
                Err(Error::BuildInternalNoClosure(key.to_owned(), version.to_owned()))
            },
            Some(j) => {
                let ghost regorig = self.registry();
                let ghost before = self.build_internals@;
                proof {
                    lemma_assoc_get_skip(regorig, key@, j as int);
                    assert(regorig.skip(j as int)[0] == regorig[j as int]);
                    assert(assoc_get(regorig, key@) == Some(regorig[j as int].1));
                }
                let (k, slot) = self.build_internals.remove(j);
                match slot {
                    None => {
                        self.build_internals.insert(j, (k, None));
                        proof {
                            assert(self.build_internals@ =~= before);
                            assert(self.registry() =~= regorig);
                            assert(regorig[j as int].1 == false);
                        }
                        Err(Error::BuildInternalNoClosure(key.to_owned(), version.to_owned()))
                    },
                    Some(h) => {
                        self.build_internals.insert(j, (k, None));
                        proof {
                            assert(regorig[j as int].1 == true);
                            lemma_assoc_put_found(regorig, key@, false, j as int);
                            assert forall|p: int|
                                0 <= p < self.registry().len() implies self.registry()[p]
                                == regorig.update(j as int, (key@, false))[p] by {
                                if p != j {
                                    assert(self.build_internals@[p] == before[p]);
                                }
                            }
                            assert(self.registry() =~= assoc_put(regorig, key@, false));
                        }
                        let res = h.build(lib_name, version);
                        check_internal_result(key, version, res)
                    },
                }
            },
        }
    }
}


// ---------------------------------------------------------------------------
// The resolution procedure
// ---------------------------------------------------------------------------

/// Whether some manifest entry declares the key `k`.
pub open spec fn key_in_manifest(deps: Seq<Dependency>, k: Seq<char>) -> bool {
    exists|m: int| 0 <= m < deps.len() && deps[m].key@ == k
}

/// The overrides of an entry whose feature gate is enabled in `env`.
pub open spec fn enabled_overrides(dep: Dependency, env: Seq<(Seq<char>, Seq<char>)>) -> Seq<
    VersionOverride,
> {
    dep.version_overrides@.filter(
        |o: VersionOverride| assoc_get(env, feature_var_name(o.key@)) is Some,
    )
}

/// A fatal condition that the manifest and the environment decide by
/// themselves, before any outside call.
#[verifier::ext_equal]
pub enum EntryErr {
    InvalidMetadata(Seq<char>),
    BuildInternalInvalid(Seq<char>),
    UnsupportedCfg(Seq<char>),
    BuildInternalNoClosure(Seq<char>, Seq<char>),
}

/// Whether an error value is the one a spec-level condition names.
pub open spec fn error_matches(e: Error, s: EntryErr) -> bool {
    match s {
        EntryErr::InvalidMetadata(m) => e matches Error::InvalidMetadata(x) && x@ == m,
        EntryErr::BuildInternalInvalid(m) => e matches Error::BuildInternalInvalid(x) && x@ == m,
        EntryErr::UnsupportedCfg(m) => e matches Error::UnsupportedCfg(x) && x@ == m,
        EntryErr::BuildInternalNoClosure(k, v) => e matches Error::BuildInternalNoClosure(x, y)
            && x@ == k && y@ == v,
    }
}

/// What the manifest and the environment alone decide for one entry.
#[verifier::ext_equal]
pub enum EntryOutcome {
    /// A gate turned the entry away: no descriptor, no error.
    Skip,
    /// The entry resolves to this descriptor without any outside call.
    Resolved(LibView),
    /// The entry aborts the run with one of the library's own errors.
    Fail(EntryErr),
    /// The entry consults discovery or an internal-build hook.
    Undetermined,
}

/// The outcome of one gated-in entry after selection: version requirement,
/// mode, and the acquisition precedence.
pub open spec fn entry_outcome_selected(
    dep: Dependency,
    env: Seq<(Seq<char>, Seq<char>)>,
    reg: Seq<(Seq<char>, bool)>,
) -> EntryOutcome {
    let en = enabled_overrides(dep, env);
    if en.len() > 0 && pick_highest_spec(en) is None {
        EntryOutcome::Fail(EntryErr::InvalidMetadata("failed to compare versions"@))
    } else {
        match effective_version(dep, en) {
            None => EntryOutcome::Fail(
                EntryErr::InvalidMetadata("No version defined for "@ + dep.key@),
            ),
            Some(v) => match mode_lookup(env, dep.key@) {
                Err(p) => EntryOutcome::Fail(
                    EntryErr::BuildInternalInvalid(invalid_mode_message(p.0, p.1)),
                ),
                Ok(mode) => if assoc_get(
                    env,
                    env_var_name(Some(dep.key@), "NO_PKG_CONFIG"@),
                ) is Some {
                    EntryOutcome::Resolved(env_lib_view(dep.key@))
                } else if mode == BuildInternal::Always {
                    if assoc_get(reg, dep.key@) == Some(true) {
                        EntryOutcome::Undetermined
                    } else {
                        EntryOutcome::Fail(EntryErr::BuildInternalNoClosure(dep.key@, v))
                    }
                } else {
                    EntryOutcome::Undetermined
                },
            },
        }
    }
}

/// The outcome of one entry past its target-configuration gate.
pub open spec fn entry_outcome_gated(
    dep: Dependency,
    env: Seq<(Seq<char>, Seq<char>)>,
    reg: Seq<(Seq<char>, bool)>,
) -> EntryOutcome {
    match dep.feature {
        Some(f) => if assoc_get(env, feature_var_name(f@)) is None {
            EntryOutcome::Skip
        } else {
            entry_outcome_selected(dep, env, reg)
        },
        None => entry_outcome_selected(dep, env, reg),
    }
}

/// What the manifest entry, the environment and the registry decide by
/// themselves, before any outside call: skipped, resolved, failed, or
/// dependent on what discovery or a hook returns.
pub open spec fn entry_outcome(
    dep: Dependency,
    env: Seq<(Seq<char>, Seq<char>)>,
    reg: Seq<(Seq<char>, bool)>,
) -> EntryOutcome {
    match dep.cfg {
        Some(c) => match assoc_get(env, "TARGET"@) {
            None => EntryOutcome::Fail(
                EntryErr::InvalidMetadata("no TARGET env variable defined"@),
            ),
            Some(t) => match cfg_eval_of(c@, t) {
                CfgEval::Match => entry_outcome_gated(dep, env, reg),
                CfgEval::NoMatch => EntryOutcome::Skip,
                CfgEval::Unsupported => EntryOutcome::Fail(EntryErr::UnsupportedCfg(c@)),
                CfgEval::BadExpression => EntryOutcome::Fail(
                    EntryErr::InvalidMetadata("Invalid cfg() expression: "@ + c@),
                ),
                CfgEval::BadTarget => EntryOutcome::Fail(
                    EntryErr::InvalidMetadata("Invalid TARGET: "@ + t),
                ),
            },
        },
        None => entry_outcome_gated(dep, env, reg),
    }
}

/// What a whole run yields, as far as manifest, environment and registry
/// decide it: the resolved set when every entry is decided here, the first
/// entry's own fatal error, or undetermined as soon as an entry must
/// consult discovery or a hook.
#[verifier::ext_equal]
pub enum RunOutcome {
    Resolved(Seq<(Seq<char>, LibView)>),
    Failed(EntryErr),
    Undetermined,
}

pub open spec fn resolution_from(
    deps: Seq<Dependency>,
    env: Seq<(Seq<char>, Seq<char>)>,
    reg: Seq<(Seq<char>, bool)>,
    acc: Seq<(Seq<char>, LibView)>,
    i: int,
) -> RunOutcome
    decreases deps.len() - i
        when 0 <= i <= deps.len()
{
    if i >= deps.len() {
        RunOutcome::Resolved(acc)
    } else {
        match entry_outcome(deps[i], env, reg) {
            EntryOutcome::Skip => resolution_from(deps, env, reg, acc, i + 1),
            EntryOutcome::Resolved(l) => resolution_from(
                deps,
                env,
                reg,
                assoc_put(acc, deps[i].key@, l),
                i + 1,
            ),
            EntryOutcome::Fail(e) => RunOutcome::Failed(e),
            EntryOutcome::Undetermined => RunOutcome::Undetermined,
        }
    }
}

/// The run over the whole manifest, from an empty set.
pub open spec fn resolution_outcome(
    deps: Seq<Dependency>,
    env: Seq<(Seq<char>, Seq<char>)>,
    reg: Seq<(Seq<char>, bool)>,
) -> RunOutcome {
    resolution_from(deps, env, reg, Seq::empty(), 0)
}

impl<H: BuildInternalHook> Config<H> {
    /// Resolve one manifest entry: gate it, select its effective version,
    /// and obtain its descriptor by override, internal build or discovery.
    /// `Ok(None)` is a skipped entry.
    fn resolve_entry(&mut self, dep: &Dependency) -> (r: Result<Option<Library>, Error>)
        ensures
            final(self).env_spec() == old(self).env_spec(),
            match entry_outcome(*dep, old(self).env_spec(), old(self).registry()) {
                EntryOutcome::Skip => r == Ok::<Option<Library>, Error>(None)
                    && final(self).registry() == old(self).registry(),
                EntryOutcome::Resolved(lv) => (r matches Ok(o) && o matches Some(l) && l@ == lv)
                    && final(self).registry() == old(self).registry(),
                EntryOutcome::Fail(e) => (r matches Err(err) && error_matches(err, e))
                    && final(self).registry() == old(self).registry(),
                EntryOutcome::Undetermined => true,
            },
    {
        if let Some(cfg) = &dep.cfg {
            match self.check_cfg(cfg.as_str()) {
                Err(e) => {
                    return Err(e);
                },
                Ok(false) => {
                    return Ok(None);
                },
                Ok(true) => {},
            }
        }
        let ghost pred = |o: VersionOverride|
            assoc_get(old(self).env_spec(), feature_var_name(o.key@)) is Some;
        let mut enabled: Vec<&VersionOverride> = Vec::new();
        let mut k: usize = 0;
        proof {
            reveal(Seq::filter);
            assert(dep.version_overrides@.take(0) =~= Seq::<VersionOverride>::empty());
            assert(ovs(enabled@) =~= dep.version_overrides@.take(0).filter(pred));
        }
        while k < dep.version_overrides.len()
            invariant
                0 <= k <= dep.version_overrides@.len(),
                self.env_spec() == old(self).env_spec(),
                self.registry() == old(self).registry(),
                ovs(enabled@) == dep.version_overrides@.take(k as int).filter(pred),
                pred == (|o: VersionOverride|
                    assoc_get(old(self).env_spec(), feature_var_name(o.key@)) is Some),
            decreases dep.version_overrides@.len() - k,
        {
            let ghost prevo = ovs(enabled@);
            let ghost taken = dep.version_overrides@.take(k as int);
            let ghost elem = dep.version_overrides@[k as int];
            if self.has_feature(dep.version_overrides[k].key.as_str()) {
                enabled.push(&dep.version_overrides[k]);
                proof {
                    assert(ovs(enabled@) =~= prevo.push(elem));
                }
            }
            proof {
                taken.lemma_filter_push(elem, pred);
                assert(dep.version_overrides@.take(k as int + 1) =~= taken.push(elem));
            }
            k = k + 1;
        }
        proof {
            assert(dep.version_overrides@.take(dep.version_overrides@.len() as int)
                =~= dep.version_overrides@);
            assert(ovs(enabled@) == enabled_overrides(*dep, old(self).env_spec()));
        }
        if let Some(f) = &dep.feature {
            if !self.has_feature(f.as_str()) {
                return Ok(None);
            }
        }
        let (version_opt, lib_name, optional) = match select_effective(dep, &enabled) {
            Ok(t) => t,
            Err(e) => {
                return Err(e);
            },
        };
        let version = match version_opt {
            Some(v) => v,
            None => {
                let mut m = ("No version defined for ").to_owned();
                m.append(dep.key.as_str());
                return Err(Error::InvalidMetadata(m));
            },
        };
        let mode = match self.get_build_internal_status(dep.key.as_str()) {
            Ok(b) => b,
            Err(e) => {
                return Err(e);
            },
        };
        let no_pkg = self.env.contains_var(&EnvVariable::new_no_pkg_config(dep.key.as_str()));
        match acquisition_plan(no_pkg, mode) {
            AcquisitionPlan::UseEnvVariables => Ok(
                Some(Library::from_env_variables(dep.key.as_str())),
            ),
            AcquisitionPlan::BuildInternally => match self.call_build_internal(
                dep.key.as_str(),
                lib_name.as_str(),
                version.as_str(),
            ) {
                Ok(l) => Ok(Some(l)),
                Err(e) => Err(e),
            },
            AcquisitionPlan::Discover => match pkg_config_probe(
                lib_name.as_str(),
                version.as_str(),
            ) {
                Ok(p) => Ok(Some(Library::from_pkg_config(lib_name.as_str(), p))),
                Err(msg) => match on_discovery_failure(mode, optional) {
                    FailureAction::BuildInternally => match self.call_build_internal(
                        dep.key.as_str(),
                        lib_name.as_str(),
                        version.as_str(),
                    ) {
                        Ok(l) => Ok(Some(l)),
                        Err(e) => Err(e),
                    },
                    FailureAction::SkipOptional => Ok(None),
                    FailureAction::Propagate => Err(Error::PkgConfig(msg)),
                },
            },
        }
    }

    /// Resolve every manifest entry, in manifest order, into a set of raw
    /// descriptors keyed by manifest key.  The run aborts on the first
    /// fatal condition.
    pub fn probe_pkg_config(&mut self, metadata: &MetaData) -> (r: Result<Dependencies, Error>)
        ensures
            final(self).env_spec() == old(self).env_spec(),
            r matches Ok(d) ==> d.wf(),
            r matches Ok(d) ==> forall|j: int| 0 <= j < d@.len() ==> #[trigger] key_in_manifest(
                metadata.deps@,
                d@[j].0,
            ),
            match resolution_outcome(metadata.deps@, old(self).env_spec(), old(self).registry()) {
                RunOutcome::Resolved(expected) => r matches Ok(d) && d@ == expected,
                RunOutcome::Failed(e) => r matches Err(err) && error_matches(err, e),
                RunOutcome::Undetermined => true,
            },
            resolution_outcome(metadata.deps@, old(self).env_spec(), old(self).registry())
                is Resolved ==> final(self).registry() == old(self).registry(),
    {
        let ghost env0 = self.env_spec();
        let ghost reg0 = self.registry();
        let ghost whole = resolution_outcome(metadata.deps@, env0, reg0);
        let mut libraries = Dependencies::default();
        let mut i: usize = 0;
        while i < metadata.deps.len()
            invariant
                0 <= i <= metadata.deps@.len(),
                self.env_spec() == old(self).env_spec(),
                env0 == old(self).env_spec(),
                reg0 == old(self).registry(),
                whole == resolution_outcome(metadata.deps@, env0, reg0),
                libraries.wf(),
                forall|j: int| 0 <= j < libraries@.len() ==> #[trigger] key_in_manifest(
                    metadata.deps@,
                    libraries@[j].0,
                ),
                whole == RunOutcome::Undetermined || (whole == resolution_from(
                    metadata.deps@,
                    env0,
                    reg0,
                    libraries@,
                    i as int,
                ) && self.registry() == reg0),
            decreases metadata.deps@.len() - i,
        {
            let dep = &metadata.deps[i];
            let ghost acc = libraries@;
            let ghost out = entry_outcome(metadata.deps@[i as int], env0, reg0);
            match self.resolve_entry(dep) {
                Err(e) => {
                    proof {
                        if whole != RunOutcome::Undetermined {
                            assert(resolution_from(metadata.deps@, env0, reg0, acc, i as int)
                                == match out {
                                EntryOutcome::Skip => resolution_from(
                                    metadata.deps@,
                                    env0,
                                    reg0,
                                    acc,
                                    i as int + 1,
                                ),
                                EntryOutcome::Resolved(l) => resolution_from(
                                    metadata.deps@,
                                    env0,
                                    reg0,
                                    assoc_put(acc, metadata.deps@[i as int].key@, l),
                                    i as int + 1,
                                ),
                                EntryOutcome::Fail(e0) => RunOutcome::Failed(e0),
                                EntryOutcome::Undetermined => RunOutcome::Undetermined,
                            });
                        }
                    }
                    return Err(e);
                },
                Ok(None) => {
                    proof {
                        if whole != RunOutcome::Undetermined {
                            assert(out is Skip || out is Undetermined);
                            assert(resolution_from(metadata.deps@, env0, reg0, acc, i as int)
                                == if out is Skip {
                                resolution_from(metadata.deps@, env0, reg0, acc, i as int + 1)
                            } else {
                                RunOutcome::Undetermined
                            });
                        }
                    }
                },
                Ok(Some(lib)) => {
                    let ghost pre = libraries@;
                    let ghost lv = lib@;
                    proof {
                        lemma_assoc_put_keys(pre, dep.key@, lv);
                    }
                    libraries.add(dep.key.as_str(), lib);
                    proof {
                        assert(libraries@ == assoc_put(pre, dep.key@, lv));
                        assert forall|j: int| 0 <= j < libraries@.len() implies #[trigger]
                        key_in_manifest(metadata.deps@, libraries@[j].0) by {
                            assert(assoc_put(pre, dep.key@, lv)[j].0 == libraries@[j].0);
                            if libraries@[j].0 == dep.key@ {
                                assert(metadata.deps@[i as int].key@ == dep.key@);
                            } else {
                                let m = choose|m: int|
                                    0 <= m < pre.len() && pre[m].0 == libraries@[j].0;
                                assert(key_in_manifest(metadata.deps@, pre[m].0));
                            }
                        }
                        if whole != RunOutcome::Undetermined {
                            assert(out is Resolved || out is Undetermined);
                            assert(resolution_from(metadata.deps@, env0, reg0, acc, i as int)
                                == if out is Resolved {
                                resolution_from(
                                    metadata.deps@,
                                    env0,
                                    reg0,
                                    assoc_put(acc, metadata.deps@[i as int].key@, out->Resolved_0),
                                    i as int + 1,
                                )
                            } else {
                                RunOutcome::Undetermined
                            });
                        }
                    }
                },
            }
            i = i + 1;
        }
        proof {
            if whole != RunOutcome::Undetermined {
                assert(resolution_from(metadata.deps@, env0, reg0, libraries@, i as int)
                    == RunOutcome::Resolved(libraries@));
            }
        }
        Ok(libraries)
    }

    /// Resolve every entry and run the environment-override pass over the
    /// result.
    pub fn probe_full(self, metadata: &MetaData) -> (r: Result<Dependencies, Error>)
        ensures
            r matches Ok(d) ==> d.wf(),
            r matches Ok(d) ==> forall|j: int| 0 <= j < d@.len() ==> #[trigger] key_in_manifest(
                metadata.deps@,
                d@[j].0,
            ),
            match resolution_outcome(metadata.deps@, self.env_spec(), self.registry()) {
                RunOutcome::Resolved(expected) => r matches Ok(d) && d@ == crate::deps::overridden(
                    expected,
                    self.env_spec(),
                ),
                RunOutcome::Failed(e) => r matches Err(err) && error_matches(err, e),
                RunOutcome::Undetermined => true,
            },
    {
        let mut this = self;
        let mut libraries = match this.probe_pkg_config(metadata) {
            Ok(l) => l,
            Err(e) => {
                return Err(e);
            },
        };
        let ghost pre = libraries@;
        libraries.override_from_flags(&this.env);
        proof {
            assert forall|j: int| 0 <= j < libraries@.len() implies libraries@[j].0 == pre[j].0 by {
                assert(libraries@[j] == (
                    pre[j].0,
                    crate::deps::apply_env_spec(pre[j].0, pre[j].1, this.env@),
                ));
            }
            assert forall|a: int, b: int|
                0 <= a < b < libraries@.len() implies libraries@[a].0 != libraries@[b].0 by {
                assert(pre[a].0 != pre[b].0);
            }
            assert forall|j: int| 0 <= j < libraries@.len() implies #[trigger] key_in_manifest(
                metadata.deps@,
                libraries@[j].0,
            ) by {
                assert(key_in_manifest(metadata.deps@, pre[j].0));
            }
        }
        Ok(libraries)
    }

    /// Probe all dependencies of the manifest: resolve, apply overrides,
    /// and validate the set against the missing-lib rule, exactly as the
    /// flag generator will see it.
    pub fn probe(self, metadata: &MetaData) -> (r: Result<Dependencies, Error>)
        ensures
            r matches Ok(d) ==> d.wf() && crate::deps::missing_lib_at(d@) is None,
            r matches Ok(d) ==> forall|j: int| 0 <= j < d@.len() ==> #[trigger] key_in_manifest(
                metadata.deps@,
                d@[j].0,
            ),
            match resolution_outcome(metadata.deps@, self.env_spec(), self.registry()) {
                RunOutcome::Resolved(expected) => ({
                    let ov = crate::deps::overridden(expected, self.env_spec());
                    match crate::deps::missing_lib_at(ov) {
                        Some(j) => r matches Err(e) && e matches Error::MissingLib(k) && k@
                            == ov[j].0,
                        None => r matches Ok(d) && d@ == ov,
                    }
                }),
                RunOutcome::Failed(e) => r matches Err(err) && error_matches(err, e),
                RunOutcome::Undetermined => true,
            },
    {
        let libraries = match self.probe_full(metadata) {
            Ok(l) => l,
            Err(e) => {
                return Err(e);
            },
        };
        match libraries.gen_flags() {
            Err(e) => Err(e),
            Ok(_) => Ok(libraries),
        }
    }
}

} // verus!
