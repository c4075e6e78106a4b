use cargo_liner::{
    synchronize, DesiredConfig, InstallSet, InstalledState, NameMap, Package, PackageFailure,
    ResolvedTargets, SyncError, Version, VersionIntent, SELF_PACKAGE,
};

fn version(text: &str) -> Version {
    Version::parse(text).unwrap()
}

fn versions(entries: &[(&str, &str)]) -> NameMap<Version> {
    let mut map = NameMap::new();
    for (name, text) in entries {
        map.insert(name.to_string(), version(text));
    }
    map
}

fn desired(entries: &[(&str, &str)]) -> DesiredConfig {
    let mut packages = NameMap::new();
    for (name, text) in entries {
        packages.insert(
            name.to_string(),
            Package::new(VersionIntent::parse(text).unwrap()),
        );
    }
    DesiredConfig::new(packages)
}

fn names(set: &InstallSet) -> Vec<String> {
    set.name_list()
}

#[test]
fn a_package_that_is_not_installed_is_installed() {
    let config = desired(&[("a", "1.0.0")]);
    let resolved: ResolvedTargets = versions(&[("a", "1.0.0")]);
    let installed = InstalledState::new();
    let set = synchronize(&config, &resolved, &installed).unwrap();
    assert_eq!(names(&set), vec!["a"]);
    assert_eq!(
        set.get("a"),
        Some(&Package::new(VersionIntent::Exact(version("1.0.0"))))
    );
}

#[test]
fn a_package_at_its_target_is_left_alone() {
    let config = desired(&[("a", "1.0.0")]);
    let resolved = versions(&[("a", "1.0.0")]);
    let installed = versions(&[("a", "1.0.0")]);
    let set = synchronize(&config, &resolved, &installed).unwrap();
    assert!(set.is_empty());
    assert_eq!(names(&set), Vec::<String>::new());
}

#[test]
fn a_package_before_its_target_is_updated() {
    let config = desired(&[("a", "1.0.0")]);
    let resolved = versions(&[("a", "1.0.0")]);
    let installed = versions(&[("a", "0.9.0")]);
    let set = synchronize(&config, &resolved, &installed).unwrap();
    assert_eq!(names(&set), vec!["a"]);
}

#[test]
fn a_package_beyond_its_target_is_not_taken_back() {
    let config = desired(&[("a", "^1.0.0")]);
    let resolved = versions(&[("a", "1.4.0")]);
    let installed = versions(&[("a", "1.5.0")]);
    assert!(synchronize(&config, &resolved, &installed).unwrap().is_empty());
}

#[test]
fn a_second_run_installs_nothing() {
    let config = desired(&[("a", "^1.0.0"), ("b", "~0.3.1"), ("c", "*"), ("d", "2.0.0-rc.1")]);
    let resolved = versions(&[("a", "1.4.0"), ("b", "0.3.9"), ("c", "7.0.0"), ("d", "2.0.0-rc.1")]);
    let before = versions(&[("a", "1.0.0"), ("c", "7.0.0")]);
    let set = synchronize(&config, &resolved, &before).unwrap();
    assert_eq!(names(&set), vec!["a", "b", "d"]);
    let after = versions(&[("a", "1.4.0"), ("b", "0.3.9"), ("c", "7.0.0"), ("d", "2.0.0-rc.1")]);
    assert!(synchronize(&config, &resolved, &after).unwrap().is_empty());
    let beyond = versions(&[("a", "1.4.1"), ("b", "0.4.0"), ("c", "8.0.0"), ("d", "2.0.0"), ("e", "0.1.0")]);
    assert!(synchronize(&config, &resolved, &beyond).unwrap().is_empty());
}

#[test]
fn tags_and_build_metadata_count_in_the_comparison() {
    let config = desired(&[("a", "*"), ("b", "*"), ("c", "*"), ("d", "*")]);
    let resolved = versions(&[("a", "1.0.0"), ("b", "1.0.0-beta"), ("c", "1.0.0+b"), ("d", "1.0.0-rc.2")]);
    let installed = versions(&[("a", "1.0.0-rc.1"), ("b", "1.0.0"), ("c", "1.0.0+a"), ("d", "1.0.0-rc.10")]);
    let set = synchronize(&config, &resolved, &installed).unwrap();
    assert_eq!(names(&set), vec!["a", "c"]);
}

#[test]
fn the_install_set_holds_the_packages_as_declared() {
    let mut packages = NameMap::new();
    let with_options = Package::with_options(
        VersionIntent::Compatible(version("1.0.0")),
        vec!["--features".to_string(), "json".to_string()],
    );
    packages.insert("b".to_string(), with_options.clone());
    packages.insert("a".to_string(), Package::new(VersionIntent::Star(version("0.1.0"))));
    let config = DesiredConfig::new(packages);
    let resolved = versions(&[("a", "0.2.0"), ("b", "1.1.0")]);
    let set = synchronize(&config, &resolved, &InstalledState::new()).unwrap();
    assert_eq!(names(&set), vec!["a", "b"]);
    assert_eq!(set.get("b"), Some(&with_options));
    assert_eq!(set.get("b").unwrap().options, vec!["--features", "json"]);
    assert_eq!(set, config.packages);
}

#[test]
fn a_package_without_target_fails_the_run() {
    let config = desired(&[("a", "1.0.0"), ("b", "1.0.0"), ("c", "1.0.0")]);
    let resolved = versions(&[("a", "1.0.0"), ("c", "1.0.0")]);
    assert_eq!(
        synchronize(&config, &resolved, &InstalledState::new()),
        Err(PackageFailure { package: "b".to_string(), error: SyncError::MissingResolution })
    );
    let installed = versions(&[("a", "1.0.0"), ("b", "1.0.0"), ("c", "1.0.0")]);
    assert_eq!(
        synchronize(&config, &resolved, &installed),
        Err(PackageFailure { package: "b".to_string(), error: SyncError::MissingResolution })
    );
}

#[test]
fn the_first_package_without_target_is_named() {
    let config = desired(&[("d", "1.0.0"), ("b", "1.0.0"), ("c", "1.0.0"), ("a", "1.0.0")]);
    let resolved = versions(&[("a", "1.0.0")]);
    assert_eq!(
        synchronize(&config, &resolved, &InstalledState::new()),
        Err(PackageFailure { package: "b".to_string(), error: SyncError::MissingResolution })
    );
}

#[test]
fn targets_of_undeclared_packages_are_ignored() {
    let config = desired(&[("a", "1.0.0")]);
    let resolved = versions(&[("a", "1.0.0"), ("z", "9.0.0")]);
    let set = synchronize(&config, &resolved, &InstalledState::new()).unwrap();
    assert_eq!(names(&set), vec!["a"]);
}

#[test]
fn with_both_toggles_off_nothing_is_looked_at() {
    let config = desired(&[("a", "1.0.0"), (SELF_PACKAGE, "*")])
        .self_update(false)
        .update_others(false);
    assert_eq!(config.names_in_effect(), Vec::<String>::new());
    let set = synchronize(&config, &ResolvedTargets::new(), &InstalledState::new()).unwrap();
    assert!(set.is_empty());
    let resolved = versions(&[("a", "2.0.0")]);
    assert!(synchronize(&config, &resolved, &InstalledState::new()).unwrap().is_empty());
}

#[test]
fn the_self_toggle_decides_for_the_tool_alone() {
    let config = desired(&[("a", "1.0.0"), (SELF_PACKAGE, "*"), ("z", "*")]).self_update(false);
    assert_eq!(config.names_in_effect(), vec!["a", "z"]);
    let resolved = versions(&[("a", "1.0.0"), ("z", "3.0.0")]);
    let set = synchronize(&config, &resolved, &InstalledState::new()).unwrap();
    assert_eq!(names(&set), vec!["a", "z"]);
}

#[test]
fn the_others_toggle_decides_for_all_but_the_tool() {
    let config = desired(&[("a", "1.0.0"), (SELF_PACKAGE, "*"), ("z", "*")]).update_others(false);
    assert_eq!(config.names_in_effect(), vec![SELF_PACKAGE]);
    let resolved = versions(&[(SELF_PACKAGE, "0.3.0")]);
    let installed = versions(&[(SELF_PACKAGE, "0.2.0")]);
    let set = synchronize(&config, &resolved, &installed).unwrap();
    assert_eq!(names(&set), vec![SELF_PACKAGE]);
}

#[test]
fn the_toggles_leave_the_declarations_alone() {
    let config = desired(&[("a", "1.0.0"), (SELF_PACKAGE, "*")]);
    assert!(config.update_self && config.update_others);
    assert_eq!(config.names_in_effect(), vec!["a", SELF_PACKAGE]);
    let off = config.self_update(false).update_others(false);
    assert!(!off.update_self && !off.update_others);
    assert_eq!(off.packages.name_list(), vec!["a", SELF_PACKAGE]);
    assert!(off.admits("a") == false && off.admits(SELF_PACKAGE) == false);
    let on = off.self_update(true);
    assert!(on.admits(SELF_PACKAGE));
    assert!(!on.admits("a"));
    let on = on.update_others(true);
    assert!(on.admits("a"));
}

#[test]
fn an_empty_configuration_installs_nothing() {
    let config = DesiredConfig::new(NameMap::new());
    let resolved = versions(&[("a", "1.0.0")]);
    let installed = versions(&[("b", "1.0.0")]);
    assert!(synchronize(&config, &resolved, &installed).unwrap().is_empty());
}
