use system_deps::{
    BuildInternal, BuildInternalClosureError, Config, Dependencies, Dependency, EnvVariable,
    EnvVariables, Error, Library, MetaData, NoBuildHook, ProbedLib, Source, VersionOverride,
};
use system_deps::resolve::{
    acquisition_plan, check_internal_result, on_discovery_failure, select_effective,
    AcquisitionPlan, BuildInternalHook, FailureAction,
};

const TARGET: &str = "x86_64-unknown-linux-gnu";

fn env_of(pairs: &[(&str, &str)]) -> EnvVariables {
    EnvVariables::from_pairs(
        pairs.iter().map(|(k, v)| (k.to_string(), v.to_string())).collect(),
    )
}

fn dep(key: &str, version: Option<&str>) -> Dependency {
    Dependency {
        key: key.to_string(),
        version: version.map(|s| s.to_string()),
        name: None,
        feature: None,
        optional: false,
        cfg: None,
        version_overrides: Vec::new(),
    }
}

fn manifest(deps: Vec<Dependency>) -> MetaData {
    MetaData { deps }
}

fn probed(version: &str, libs: &[&str]) -> ProbedLib {
    ProbedLib {
        libs: libs.iter().map(|s| s.to_string()).collect(),
        link_paths: Vec::new(),
        frameworks: Vec::new(),
        framework_paths: Vec::new(),
        include_paths: Vec::new(),
        defines: Vec::new(),
        version: version.to_string(),
    }
}

struct OkHook {
    version: &'static str,
}

impl BuildInternalHook for OkHook {
    fn build(self, name: &str, _version: &str) -> Result<Library, BuildInternalClosureError> {
        let mut lib = Library::from_env_variables(name);
        lib.source = Source::PkgConfig;
        lib.libs = vec![name.to_string()];
        lib.version = self.version.to_string();
        Ok(lib)
    }
}

struct FailHook;

impl BuildInternalHook for FailHook {
    fn build(self, _name: &str, _version: &str) -> Result<Library, BuildInternalClosureError> {
        Err(BuildInternalClosureError::failed("boom"))
    }
}

#[test]
fn env_variable_names() {
    assert_eq!(EnvVariable::new_lib("testlib").var_name(), "SYSTEM_DEPS_TESTLIB_LIB");
    assert_eq!(
        EnvVariable::new_lib_framework("testlib").var_name(),
        "SYSTEM_DEPS_TESTLIB_LIB_FRAMEWORK"
    );
    assert_eq!(
        EnvVariable::new_search_native("test-data").var_name(),
        "SYSTEM_DEPS_TEST_DATA_SEARCH_NATIVE"
    );
    assert_eq!(
        EnvVariable::new_no_pkg_config("testlib").var_name(),
        "SYSTEM_DEPS_TESTLIB_NO_PKG_CONFIG"
    );
    assert_eq!(
        EnvVariable::new_build_internal(Some("testlib")).var_name(),
        "SYSTEM_DEPS_TESTLIB_BUILD_INTERNAL"
    );
    assert_eq!(EnvVariable::new_build_internal(None).var_name(), "SYSTEM_DEPS_BUILD_INTERNAL");
}

#[test]
fn env_lookup_distinguishes_absent_from_empty() {
    let env = env_of(&[("EMPTY", "")]);
    assert!(env.contains("EMPTY"));
    assert_eq!(env.get("EMPTY"), Some(String::new()));
    assert!(!env.contains("ABSENT"));
    assert_eq!(env.get("ABSENT"), None);
}

#[test]
fn has_feature_normalizes_names() {
    let cfg = Config::<NoBuildHook>::new_with_env(env_of(&[("CARGO_FEATURE_USE_TEST", "1")]));
    assert!(cfg.has_feature("use-test"));
    assert!(cfg.has_feature("USE_TEST"));
    assert!(!cfg.has_feature("other"));
}

#[test]
fn build_internal_mode_literals() {
    assert_eq!(BuildInternal::from_str("auto"), Some(BuildInternal::Auto));
    assert_eq!(BuildInternal::from_str("always"), Some(BuildInternal::Always));
    assert_eq!(BuildInternal::from_str("never"), Some(BuildInternal::Never));
    assert_eq!(BuildInternal::from_str("sometimes"), None);
    assert_eq!(BuildInternal::default(), BuildInternal::Never);
}

#[test]
fn version_comparison_outcomes() {
    let same = OkHook { version: "1.2.3" }.build("testlib", "").unwrap();
    assert!(check_internal_result("testlib", "1.2.3", Ok(same)).is_ok());
    let lower = OkHook { version: "1.2.3" }.build("testlib", "").unwrap();
    assert!(matches!(
        check_internal_result("testlib", "1.2.4", Ok(lower)),
        Err(Error::BuildInternalWrongVersion(_, _, _))
    ));
    let higher = OkHook { version: "1" }.build("testlib", "").unwrap();
    assert!(check_internal_result("testlib", "0.1", Ok(higher)).is_ok());
}

#[test]
fn decision_kernels() {
    assert_eq!(acquisition_plan(true, BuildInternal::Never), AcquisitionPlan::UseEnvVariables);
    assert_eq!(acquisition_plan(true, BuildInternal::Always), AcquisitionPlan::UseEnvVariables);
    assert_eq!(acquisition_plan(false, BuildInternal::Always), AcquisitionPlan::BuildInternally);
    assert_eq!(acquisition_plan(false, BuildInternal::Auto), AcquisitionPlan::Discover);
    assert_eq!(acquisition_plan(false, BuildInternal::Never), AcquisitionPlan::Discover);
    assert_eq!(
        on_discovery_failure(BuildInternal::Auto, false),
        FailureAction::BuildInternally
    );
    assert_eq!(on_discovery_failure(BuildInternal::Never, true), FailureAction::SkipOptional);
    assert_eq!(on_discovery_failure(BuildInternal::Never, false), FailureAction::Propagate);
}

#[test]
fn internal_result_judgement() {
    let ok = OkHook { version: "1.4" }.build("testlib", "1.2").unwrap();
    match check_internal_result("testlib", "1.2", Ok(ok)) {
        Ok(l) => assert_eq!(l.version, "1.4"),
        Err(_) => panic!("a sufficient version must be accepted"),
    }
    let low = OkHook { version: "1.0" }.build("testlib", "1.2").unwrap();
    match check_internal_result("testlib", "1.2", Err(BuildInternalClosureError::failed("boom"))) {
        Err(Error::BuildInternalClosureError(k, e)) => {
            assert_eq!(k, "testlib");
            assert_eq!(e.message(), "boom");
        },
        _ => panic!("a hook failure must be wrapped with the key"),
    }
    match check_internal_result("testlib", "1.2", Ok(low)) {
        Err(Error::BuildInternalWrongVersion(k, actual, wanted)) => {
            assert_eq!(k, "testlib");
            assert_eq!(actual, "1.0");
            assert_eq!(wanted, "1.2");
        },
        _ => panic!("a version below the requirement must be rejected"),
    }
}

#[test]
fn discovered_descriptor_fields() {
    let lib = Library::from_pkg_config("testlib", probed("1.4", &["testlib"]));
    assert_eq!(lib.name, "testlib");
    assert_eq!(lib.source, Source::PkgConfig);
    assert_eq!(lib.version, "1.4");
    assert_eq!(lib.libs, vec!["testlib".to_string()]);
    let mut deps = Dependencies::default();
    deps.add("testlib", lib);
    assert!(deps.get_by_name("testlib").is_some());
    assert_eq!(deps.get_by_name("testlib").unwrap().version, "1.4");
    assert_eq!(deps.presence_markers(), vec!["system_deps_have_testlib".to_string()]);
    assert!(deps.get_by_name("other").is_none());
}

#[test]
fn feature_override_selects_highest_version() {
    let mut d = dep("testmore", Some("2.0"));
    d.version_overrides.push(VersionOverride {
        key: "v3".to_string(),
        version: "3.0".to_string(),
        name: None,
        optional: None,
    });
    let enabled: Vec<&VersionOverride> = vec![&d.version_overrides[0]];
    let (version, name, optional) = select_effective(&d, &enabled).unwrap();
    assert_eq!(version, Some("3.0".to_string()));
    assert_eq!(name, "testmore");
    assert!(!optional);
}

#[test]
fn override_selection_ignores_declaration_order() {
    let d = dep("testmore", Some("1.0"));
    let hi = VersionOverride {
        key: "v3".to_string(),
        version: "3.0".to_string(),
        name: Some("testmore-3".to_string()),
        optional: Some(true),
    };
    let lo = VersionOverride {
        key: "v2".to_string(),
        version: "2.0".to_string(),
        name: None,
        optional: None,
    };
    let first: Vec<&VersionOverride> = vec![&hi, &lo];
    let (v1, n1, o1) = select_effective(&d, &first).unwrap();
    let second: Vec<&VersionOverride> = vec![&lo, &hi];
    let (v2, n2, o2) = select_effective(&d, &second).unwrap();
    assert_eq!(v1, Some("3.0".to_string()));
    assert_eq!(v1, v2);
    assert_eq!(n1, "testmore-3");
    assert_eq!(n1, n2);
    assert!(o1 && o2);
}

#[test]
fn no_discovery_override_with_libs_succeeds() {
    let env = env_of(&[
        ("TARGET", TARGET),
        ("SYSTEM_DEPS_TESTLIB_NO_PKG_CONFIG", "1"),
        ("SYSTEM_DEPS_TESTLIB_LIB", "testlib-one testlib-two"),
    ]);
    let cfg = Config::<NoBuildHook>::new_with_env(env);
    let deps = cfg.probe(&manifest(vec![dep("testlib", Some("1.2"))])).unwrap();
    let lib = deps.get_by_name("testlib").unwrap();
    assert_eq!(lib.source, Source::EnvVariables);
    assert_eq!(lib.libs, vec!["testlib-one".to_string(), "testlib-two".to_string()]);
    assert!(lib.frameworks.is_empty());
    assert_eq!(deps.presence_markers(), vec!["system_deps_have_testlib".to_string()]);
}

#[test]
fn no_discovery_override_without_libs_fails() {
    let env = env_of(&[("TARGET", TARGET), ("SYSTEM_DEPS_TESTLIB_NO_PKG_CONFIG", "1")]);
    let cfg = Config::<NoBuildHook>::new_with_env(env);
    match cfg.probe(&manifest(vec![dep("testlib", Some("1.2"))])) {
        Err(Error::MissingLib(k)) => {
            assert_eq!(k, "testlib");
            let e = Error::MissingLib(k);
            assert_eq!(
                e.message(),
                "You should define at least one lib using SYSTEM_DEPS_TESTLIB_LIB or \
                 SYSTEM_DEPS_TESTLIB_LIB_FRAMEWORK"
            );
        },
        _ => panic!("an empty no-discovery override must fail with the missing-lib error"),
    }
}

#[test]
fn no_discovery_override_cleared_libs_fails() {
    let env = env_of(&[
        ("TARGET", TARGET),
        ("SYSTEM_DEPS_TESTLIB_NO_PKG_CONFIG", "1"),
        ("SYSTEM_DEPS_TESTLIB_LIB", ""),
    ]);
    let cfg = Config::<NoBuildHook>::new_with_env(env);
    assert!(matches!(
        cfg.probe(&manifest(vec![dep("testlib", Some("1.2"))])),
        Err(Error::MissingLib(_))
    ));
}

#[test]
fn build_internal_always_without_hook_fails() {
    let env = env_of(&[("TARGET", TARGET), ("SYSTEM_DEPS_TESTLIB_BUILD_INTERNAL", "always")]);
    let cfg = Config::<NoBuildHook>::new_with_env(env);
    match cfg.probe(&manifest(vec![dep("testlib", Some("1.2"))])) {
        Err(Error::BuildInternalNoClosure(k, v)) => {
            assert_eq!(k, "testlib");
            assert_eq!(v, "1.2");
            let e = Error::BuildInternalNoClosure(k, v);
            assert_eq!(e.message(), "Missing build internal closure for testlib (version 1.2)");
        },
        _ => panic!("mode always without a registered hook must fail"),
    }
}

#[test]
fn global_build_internal_variable_applies() {
    let env = env_of(&[("TARGET", TARGET), ("SYSTEM_DEPS_BUILD_INTERNAL", "always")]);
    let cfg = Config::<NoBuildHook>::new_with_env(env);
    assert!(matches!(
        cfg.probe(&manifest(vec![dep("testlib", Some("1.2"))])),
        Err(Error::BuildInternalNoClosure(_, _))
    ));
}

#[test]
fn build_internal_always_uses_hook() {
    let env = env_of(&[("TARGET", TARGET), ("SYSTEM_DEPS_TESTLIB_BUILD_INTERNAL", "always")]);
    let cfg = Config::new_with_env(env).add_build_internal("testlib", OkHook { version: "2.0" });
    let deps = cfg.probe(&manifest(vec![dep("testlib", Some("1.2"))])).unwrap();
    assert_eq!(deps.get_by_name("testlib").unwrap().version, "2.0");
}

#[test]
fn build_internal_auto_falls_back_after_failed_discovery() {
    let env = env_of(&[("TARGET", TARGET), ("SYSTEM_DEPS_TESTLIB_BUILD_INTERNAL", "auto")]);
    let cfg = Config::new_with_env(env).add_build_internal("testlib", OkHook { version: "2.0" });
    let deps = cfg.probe(&manifest(vec![dep("testlib", Some("1.2"))])).unwrap();
    assert_eq!(deps.get_by_name("testlib").unwrap().version, "2.0");
}

#[test]
fn build_internal_version_too_low_fails() {
    let env = env_of(&[("TARGET", TARGET), ("SYSTEM_DEPS_TESTLIB_BUILD_INTERNAL", "auto")]);
    let cfg = Config::new_with_env(env).add_build_internal("testlib", OkHook { version: "0.9" });
    match cfg.probe(&manifest(vec![dep("testlib", Some("1.2"))])) {
        Err(Error::BuildInternalWrongVersion(k, actual, wanted)) => {
            assert_eq!(k, "testlib");
            assert_eq!(actual, "0.9");
            assert_eq!(wanted, "1.2");
            let e = Error::BuildInternalWrongVersion(k, actual, wanted);
            assert_eq!(
                e.message(),
                "Internally built testlib 0.9 but minimum required version is 1.2"
            );
        },
        _ => panic!("an internally built version below the requirement must fail"),
    }
}

#[test]
fn build_internal_hook_failure_is_wrapped() {
    let env = env_of(&[("TARGET", TARGET), ("SYSTEM_DEPS_TESTLIB_BUILD_INTERNAL", "always")]);
    let cfg = Config::new_with_env(env).add_build_internal("testlib", FailHook);
    match cfg.probe(&manifest(vec![dep("testlib", Some("1.2"))])) {
        Err(e @ Error::BuildInternalClosureError(_, _)) => {
            assert_eq!(e.message(), "Failed to build testlib: boom");
        },
        _ => panic!("a hook failure must be wrapped"),
    }
}

#[test]
fn hook_is_consumed_on_use() {
    let env = env_of(&[("TARGET", TARGET)]);
    let mut cfg = Config::new_with_env(env).add_build_internal("testlib", OkHook {
        version: "2.0",
    });
    assert!(cfg.call_build_internal("testlib", "testlib", "1.0").is_ok());
    assert!(matches!(
        cfg.call_build_internal("testlib", "testlib", "1.0"),
        Err(Error::BuildInternalNoClosure(_, _))
    ));
}

#[test]
fn invalid_build_internal_value_fails() {
    let env = env_of(&[("TARGET", TARGET), ("SYSTEM_DEPS_TESTLIB_BUILD_INTERNAL", "sometimes")]);
    let cfg = Config::<NoBuildHook>::new_with_env(env);
    match cfg.probe(&manifest(vec![dep("testlib", Some("1.2"))])) {
        Err(Error::BuildInternalInvalid(m)) => {
            assert_eq!(
                m,
                "Invalid value in SYSTEM_DEPS_TESTLIB_BUILD_INTERNAL: sometimes \
                 (allowed: 'auto', 'always', 'never')"
            );
        },
        _ => panic!("an unrecognized mode value must fail"),
    }
}

#[test]
fn missing_version_fails() {
    let env = env_of(&[("TARGET", TARGET), ("SYSTEM_DEPS_TESTLIB_NO_PKG_CONFIG", "1")]);
    let cfg = Config::<NoBuildHook>::new_with_env(env);
    match cfg.probe(&manifest(vec![dep("testlib", None)])) {
        Err(Error::InvalidMetadata(m)) => assert_eq!(m, "No version defined for testlib"),
        _ => panic!("an entry without any version must fail"),
    }
}

#[test]
fn discovery_failure_propagates() {
    let env = env_of(&[("TARGET", TARGET)]);
    let cfg = Config::<NoBuildHook>::new_with_env(env);
    assert!(matches!(
        cfg.probe(&manifest(vec![dep("system-deps-no-such-library", Some("1.0"))])),
        Err(Error::PkgConfig(_))
    ));
}

#[test]
fn optional_dependency_skips_failed_discovery() {
    let env = env_of(&[("TARGET", TARGET)]);
    let cfg = Config::<NoBuildHook>::new_with_env(env);
    let mut d = dep("system-deps-no-such-library", Some("1.0"));
    d.optional = true;
    let deps = cfg.probe(&manifest(vec![d])).unwrap();
    assert!(deps.get_by_name("system-deps-no-such-library").is_none());
    assert!(deps.iter().is_empty());
}

#[test]
fn feature_gate_skips_disabled_entry() {
    let env = env_of(&[("TARGET", TARGET), ("SYSTEM_DEPS_TESTDATA_NO_PKG_CONFIG", "1"), (
        "SYSTEM_DEPS_TESTDATA_LIB",
        "testdata",
    )]);
    let cfg = Config::<NoBuildHook>::new_with_env(env);
    let mut d = dep("testdata", Some("4.5"));
    d.feature = Some("use-testdata".to_string());
    let deps = cfg.probe(&manifest(vec![d])).unwrap();
    assert!(deps.get_by_name("testdata").is_none());
}

#[test]
fn cfg_gating_matches_target() {
    let env = env_of(&[
        ("TARGET", TARGET),
        ("SYSTEM_DEPS_TESTLIB_NO_PKG_CONFIG", "1"),
        ("SYSTEM_DEPS_TESTLIB_LIB", "testlib"),
    ]);
    let cfg = Config::<NoBuildHook>::new_with_env(env);
    let mut on_linux = dep("testlib", Some("1.0"));
    on_linux.cfg = Some("target_os = \"linux\"".to_string());
    let deps = cfg.probe(&manifest(vec![on_linux])).unwrap();
    assert!(deps.get_by_name("testlib").is_some());

    let env2 = env_of(&[("TARGET", TARGET)]);
    let cfg2 = Config::<NoBuildHook>::new_with_env(env2);
    let mut on_macos = dep("testlib", Some("1.0"));
    on_macos.cfg = Some("target_os = \"macos\"".to_string());
    let deps2 = cfg2.probe(&manifest(vec![on_macos])).unwrap();
    assert!(deps2.get_by_name("testlib").is_none());
}

#[test]
fn unsupported_cfg_expression_fails() {
    let env = env_of(&[("TARGET", TARGET)]);
    let cfg = Config::<NoBuildHook>::new_with_env(env);
    let mut d = dep("testlib", Some("1.0"));
    d.cfg = Some("feature = \"dox\"".to_string());
    match cfg.probe(&manifest(vec![d])) {
        Err(e @ Error::UnsupportedCfg(_)) => {
            assert_eq!(e.message(), "Unsupported cfg() expression: feature = \"dox\"");
        },
        _ => panic!("an uninterpretable predicate must abort resolution"),
    }
}

#[test]
fn invalid_target_fails() {
    let env = env_of(&[("TARGET", "not-a-triple")]);
    let cfg = Config::<NoBuildHook>::new_with_env(env);
    let mut d = dep("testlib", Some("1.0"));
    d.cfg = Some("unix".to_string());
    match cfg.probe(&manifest(vec![d])) {
        Err(Error::InvalidMetadata(m)) => assert_eq!(m, "Invalid TARGET: not-a-triple"),
        _ => panic!("an unknown target triple must abort resolution"),
    }
}

#[test]
fn missing_target_fails_for_cfg_entries() {
    let env = env_of(&[]);
    let cfg = Config::<NoBuildHook>::new_with_env(env);
    let mut d = dep("testlib", Some("1.0"));
    d.cfg = Some("unix".to_string());
    match cfg.probe(&manifest(vec![d])) {
        Err(Error::InvalidMetadata(m)) => assert_eq!(m, "no TARGET env variable defined"),
        _ => panic!("gating needs the TARGET variable"),
    }
}

#[test]
fn library_name_defaults_normalize_separators() {
    let d = dep("test_lib", None);
    assert_eq!(d.lib_name(), "test-lib");
    let mut named = dep("glib", None);
    named.name = Some("glib-2.0".to_string());
    assert_eq!(named.lib_name(), "glib-2.0");
}

#[test]
fn plain_entry_keeps_declared_version() {
    let d = dep("testlib", Some("1.2"));
    let enabled: Vec<&VersionOverride> = Vec::new();
    let (version, name, optional) = select_effective(&d, &enabled).unwrap();
    assert_eq!(version, Some("1.2".to_string()));
    assert_eq!(name, "testlib");
    assert!(!optional);
}

#[test]
fn presence_markers_normalize_keys() {
    let env = env_of(&[
        ("TARGET", TARGET),
        ("SYSTEM_DEPS_TEST_DATA_NO_PKG_CONFIG", "1"),
        ("SYSTEM_DEPS_TEST_DATA_LIB", "testdata"),
    ]);
    let cfg = Config::<NoBuildHook>::new_with_env(env);
    let deps = cfg.probe(&manifest(vec![dep("test-data", Some("4.5"))])).unwrap();
    assert_eq!(deps.presence_markers(), vec!["system_deps_have_test_data".to_string()]);
}

#[test]
fn duplicate_manifest_key_silently_replaces() {
    let env = env_of(&[
        ("TARGET", TARGET),
        ("SYSTEM_DEPS_TESTLIB_NO_PKG_CONFIG", "1"),
        ("SYSTEM_DEPS_TESTLIB_LIB", "late"),
    ]);
    let cfg = Config::<NoBuildHook>::new_with_env(env);
    let first = dep("testlib", Some("1.0"));
    let second = dep("testlib", Some("2.0"));
    let deps = cfg.probe(&manifest(vec![first, second])).unwrap();
    assert_eq!(deps.iter().len(), 1);
    assert_eq!(deps.get_by_name("testlib").unwrap().libs, vec!["late".to_string()]);
}

#[test]
fn fully_determined_manifest_resolves_exactly() {
    let env = env_of(&[
        ("TARGET", TARGET),
        ("SYSTEM_DEPS_TESTLIB_NO_PKG_CONFIG", "1"),
        ("SYSTEM_DEPS_TESTLIB_LIB", "testlib"),
        ("SYSTEM_DEPS_OTHER_NO_PKG_CONFIG", "1"),
        ("SYSTEM_DEPS_OTHER_LIB_FRAMEWORK", "Other"),
    ]);
    let cfg = Config::<NoBuildHook>::new_with_env(env);
    let mut gated_by_cfg = dep("gatedcfg", Some("1.0"));
    gated_by_cfg.cfg = Some("windows".to_string());
    let mut gated_by_feature = dep("gatedfeat", Some("1.0"));
    gated_by_feature.feature = Some("extra".to_string());
    let md = manifest(vec![
        dep("testlib", Some("1.2")),
        gated_by_cfg,
        gated_by_feature,
        dep("other", Some("2.0")),
    ]);
    let deps = cfg.probe(&md).unwrap();
    assert_eq!(deps.iter().len(), 2);
    assert_eq!(deps.get_by_name("testlib").unwrap().libs, vec!["testlib".to_string()]);
    assert_eq!(deps.get_by_name("other").unwrap().frameworks, vec!["Other".to_string()]);
    assert!(deps.get_by_name("gatedcfg").is_none());
    assert!(deps.get_by_name("gatedfeat").is_none());
}
