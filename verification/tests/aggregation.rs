use system_deps::{BuildFlag, BuildFlags, Dependencies, EnvVariables, Library, ProbedLib, Source};

fn env_of(pairs: &[(&str, &str)]) -> EnvVariables {
    EnvVariables::from_pairs(
        pairs.iter().map(|(k, v)| (k.to_string(), v.to_string())).collect(),
    )
}

fn lib_with(
    name: &str,
    libs: &[&str],
    link_paths: &[&str],
    include_paths: &[&str],
    defines: &[(&str, Option<&str>)],
) -> Library {
    Library::from_pkg_config(name, ProbedLib {
        libs: libs.iter().map(|s| s.to_string()).collect(),
        link_paths: link_paths.iter().map(|s| s.to_string()).collect(),
        frameworks: Vec::new(),
        framework_paths: Vec::new(),
        include_paths: include_paths.iter().map(|s| s.to_string()).collect(),
        defines: defines
            .iter()
            .map(|(k, v)| (k.to_string(), v.map(|s| s.to_string())))
            .collect(),
        version: "1.0".to_string(),
    })
}

#[test]
fn aggregates_sort_and_deduplicate() {
    let mut deps = Dependencies::default();
    deps.add("one", lib_with("one", &["b", "a", "b"], &["/l2"], &["/i2"], &[]));
    deps.add("two", lib_with("two", &["c", "a"], &["/l1", "/l2"], &["/i1"], &[]));
    assert_eq!(deps.all_libs(), vec!["a".to_string(), "b".to_string(), "c".to_string()]);
    assert_eq!(deps.all_link_paths(), vec!["/l1".to_string(), "/l2".to_string()]);
    assert_eq!(deps.all_include_paths(), vec!["/i1".to_string(), "/i2".to_string()]);
    assert!(deps.all_frameworks().is_empty());
    assert!(deps.all_framework_paths().is_empty());
}

#[test]
fn aggregates_are_order_independent() {
    let a = lib_with("one", &["z", "m"], &[], &[], &[("N", Some("1"))]);
    let b = lib_with("two", &["a", "m"], &[], &[], &[("M", None)]);
    let a2 = lib_with("one", &["z", "m"], &[], &[], &[("N", Some("1"))]);
    let b2 = lib_with("two", &["a", "m"], &[], &[], &[("M", None)]);
    let mut first = Dependencies::default();
    first.add("one", a);
    first.add("two", b);
    let mut second = Dependencies::default();
    second.add("two", b2);
    second.add("one", a2);
    assert_eq!(first.all_libs(), second.all_libs());
    assert_eq!(first.all_defines(), second.all_defines());
    assert_eq!(
        first.all_defines(),
        vec![("M".to_string(), None), ("N".to_string(), Some("1".to_string()))]
    );
}

#[test]
fn duplicate_key_replaces_earlier_descriptor() {
    let mut deps = Dependencies::default();
    deps.add("one", lib_with("one", &["old"], &[], &[], &[]));
    deps.add("one", lib_with("one", &["new"], &[], &[], &[]));
    assert_eq!(deps.iter().len(), 1);
    assert_eq!(deps.get_by_name("one").unwrap().libs, vec!["new".to_string()]);
}

#[test]
fn override_pass_replaces_fields() {
    let mut deps = Dependencies::default();
    deps.add("testlib", lib_with("testlib", &["orig"], &["/orig"], &["/inc"], &[]));
    let env = env_of(&[
        ("SYSTEM_DEPS_TESTLIB_LIB", "new-one new-two"),
        ("SYSTEM_DEPS_TESTLIB_SEARCH_NATIVE", "/native"),
        ("SYSTEM_DEPS_TESTLIB_INCLUDE", ""),
    ]);
    deps.override_from_flags(&env);
    let lib = deps.get_by_name("testlib").unwrap();
    assert_eq!(lib.libs, vec!["new-one".to_string(), "new-two".to_string()]);
    assert_eq!(lib.link_paths, vec!["/native".to_string()]);
    assert!(lib.include_paths.is_empty());
    assert_eq!(lib.version, "1.0");
}

#[test]
fn override_pass_is_idempotent() {
    let mut deps = Dependencies::default();
    deps.add("testlib", lib_with("testlib", &["orig"], &["/orig"], &["/inc"], &[]));
    let env = env_of(&[
        ("SYSTEM_DEPS_TESTLIB_LIB", "a b"),
        ("SYSTEM_DEPS_TESTLIB_SEARCH_FRAMEWORK", "/fw"),
    ]);
    deps.override_from_flags(&env);
    let once_libs = deps.get_by_name("testlib").unwrap().libs.clone();
    let once_fw = deps.get_by_name("testlib").unwrap().framework_paths.clone();
    let once_links = deps.get_by_name("testlib").unwrap().link_paths.clone();
    deps.override_from_flags(&env);
    let lib = deps.get_by_name("testlib").unwrap();
    assert_eq!(lib.libs, once_libs);
    assert_eq!(lib.framework_paths, once_fw);
    assert_eq!(lib.link_paths, once_links);
}

#[test]
fn flag_rendering() {
    let mut flags = BuildFlags::new();
    flags.add(BuildFlag::Lib("z".to_string()));
    flags.add(BuildFlag::Include("/a:/b".to_string()));
    assert_eq!(flags.render(), "cargo:rustc-link-lib=z\ncargo:include=/a:/b\n");
}

#[test]
fn generated_flags_list_include_paths_and_rerun_triggers() {
    let mut deps = Dependencies::default();
    deps.add("testlib", lib_with("testlib", &["testlib"], &[], &["/i1", "/i2"], &[]));
    let flags = deps.gen_flags().unwrap();
    let text = flags.render();
    assert!(text.starts_with("cargo:include=/i1:/i2\n"));
    assert!(text.contains("cargo:rerun-if-env-changed=SYSTEM_DEPS_BUILD_INTERNAL\n"));
    assert!(text.contains("cargo:rerun-if-env-changed=SYSTEM_DEPS_TESTLIB_LIB\n"));
    assert!(text.contains("cargo:rerun-if-env-changed=SYSTEM_DEPS_TESTLIB_LIB_FRAMEWORK\n"));
    assert!(text.contains("cargo:rerun-if-env-changed=SYSTEM_DEPS_TESTLIB_SEARCH_NATIVE\n"));
    assert!(text.contains("cargo:rerun-if-env-changed=SYSTEM_DEPS_TESTLIB_SEARCH_FRAMEWORK\n"));
    assert!(text.contains("cargo:rerun-if-env-changed=SYSTEM_DEPS_TESTLIB_INCLUDE\n"));
    assert!(text.contains("cargo:rerun-if-env-changed=SYSTEM_DEPS_TESTLIB_NO_PKG_CONFIG\n"));
    assert!(text.contains("cargo:rerun-if-env-changed=SYSTEM_DEPS_TESTLIB_BUILD_INTERNAL\n"));
}

#[test]
fn generated_flags_without_includes_omit_the_directive() {
    let mut deps = Dependencies::default();
    deps.add("testlib", lib_with("testlib", &["testlib"], &[], &[], &[]));
    let text = deps.gen_flags().unwrap().render();
    assert!(!text.contains("cargo:include="));
    assert!(text.starts_with("cargo:rerun-if-env-changed=SYSTEM_DEPS_BUILD_INTERNAL\n"));
}

#[test]
fn generated_flags_reject_empty_no_discovery_descriptor() {
    let mut deps = Dependencies::default();
    deps.add("testlib", Library::from_env_variables("testlib"));
    assert!(matches!(deps.gen_flags(), Err(system_deps::Error::MissingLib(k)) if k == "testlib"));
}

#[test]
fn split_helpers() {
    assert_eq!(
        system_deps::strutil::split_string("a bc  d"),
        vec!["a".to_string(), "bc".to_string(), "".to_string(), "d".to_string()]
    );
    assert!(system_deps::strutil::split_string("").is_empty());
    assert_eq!(
        system_deps::strutil::split_paths("/a:/b/c"),
        vec!["/a".to_string(), "/b/c".to_string()]
    );
    assert!(system_deps::strutil::split_paths("").is_empty());
    assert_eq!(system_deps::strutil::join_strings(&vec!["/a".to_string(), "/b".to_string()], ":"), "/a:/b");
}
