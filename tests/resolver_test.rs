use anvs::config::Config;
use anvs::engines::EnginesResolver;
use anvs::plugins::{MockPlugin, Plugin};
use anvs::registry::PluginRegistry;
use anvs::version::{SemverResolver, VersionKey};

fn mock_with(versions: &[&str]) -> Plugin {
    Plugin::Mock(MockPlugin::new("mock").with_versions(versions))
}

#[test]
fn test_resolve_exact_version() {
    let mock = mock_with(&["18.20.0", "20.0.0"]);
    let resolver = SemverResolver::new(&mock);
    assert_eq!(resolver.resolve("18.20.0").unwrap(), "18.20.0");
}

#[test]
fn test_resolve_caret_range() {
    let mock = mock_with(&["20.0.0", "20.5.0", "20.11.0", "21.0.0"]);
    let resolver = SemverResolver::new(&mock);
    assert_eq!(resolver.resolve("^20.0.0").unwrap(), "20.11.0");
}

#[test]
fn test_resolve_tilde_range() {
    let mock = mock_with(&["18.20.0", "18.20.3", "18.20.5", "18.21.0"]);
    let resolver = SemverResolver::new(&mock);
    assert_eq!(resolver.resolve("~18.20.0").unwrap(), "18.20.5");
}

#[test]
fn test_resolve_gte_range() {
    let mock = mock_with(&["16.0.0", "18.20.0", "20.0.0", "20.11.0"]);
    let resolver = SemverResolver::new(&mock);
    assert_eq!(resolver.resolve(">=18.0.0").unwrap(), "20.11.0");
}

#[test]
fn test_resolve_no_matching_versions() {
    let mock = mock_with(&["16.0.0", "18.0.0"]);
    let resolver = SemverResolver::new(&mock);
    assert_eq!(resolver.resolve(">=20.0.0").unwrap(), ">=20.0.0");
}

#[test]
fn test_resolve_empty_installed_versions() {
    let mock = mock_with(&[]);
    let resolver = SemverResolver::new(&mock);
    assert_eq!(resolver.resolve(">=18.0.0").unwrap(), ">=18.0.0");
}

#[test]
fn test_resolve_invalid_semver() {
    let mock = mock_with(&["18.20.0"]);
    let resolver = SemverResolver::new(&mock);
    assert_eq!(resolver.resolve("lts/hydrogen").unwrap(), "lts/hydrogen");
    assert_eq!(resolver.resolve("latest").unwrap(), "latest");
}

#[test]
fn test_resolve_with_v_prefix() {
    let mock = mock_with(&["v18.20.0", "v20.0.0", "v20.11.0"]);
    let resolver = SemverResolver::new(&mock);
    assert_eq!(resolver.resolve(">=18.0.0").unwrap(), "v20.11.0");
}

#[test]
fn test_resolve_wildcard_major() {
    let mock = mock_with(&["18.0.0", "18.20.0", "18.20.5", "20.0.0"]);
    let resolver = SemverResolver::new(&mock);
    assert_eq!(resolver.resolve("18.*").unwrap(), "18.20.5");
}

#[test]
fn test_resolve_or_operator() {
    let mock = mock_with(&["16.0.0", "18.20.0", "20.11.0"]);
    let resolver = SemverResolver::new(&mock);
    assert_eq!(resolver.resolve(">=20").unwrap(), "20.11.0");
}

#[test]
fn test_resolve_complex_range() {
    let mock = mock_with(&["18.0.0", "18.20.0", "20.0.0", "20.11.0", "22.0.0"]);
    let resolver = SemverResolver::new(&mock);
    assert_eq!(resolver.resolve("<21").unwrap(), "20.11.0");
}

#[test]
fn resolving_an_exact_version_twice_changes_nothing() {
    let mock = mock_with(&["18.20.0", "20.0.0"]);
    let resolver = SemverResolver::new(&mock);
    let once = resolver.resolve("19.1.0").unwrap();
    let twice = resolver.resolve(&once).unwrap();
    assert_eq!(once, "19.1.0");
    assert_eq!(twice, once);
}

#[test]
fn prereleases_follow_semver_precedence() {
    let mock = mock_with(&["20.0.0-beta.1", "20.0.0-beta.2", "20.0.0-alpha"]);
    let resolver = SemverResolver::new(&mock);
    assert_eq!(resolver.resolve(">=20.0.0-beta.1").unwrap(), "20.0.0-beta.2");
    let mock = mock_with(&["20.0.0-rc.10", "20.0.0-rc.9"]);
    let resolver = SemverResolver::new(&mock);
    assert_eq!(resolver.resolve(">=20.0.0-rc.1").unwrap(), "20.0.0-rc.10");
}

#[test]
fn equal_versions_keep_the_first_listed() {
    let mock = mock_with(&["v20.1.0", "20.1.0"]);
    let resolver = SemverResolver::new(&mock);
    assert_eq!(resolver.resolve(">=20").unwrap(), "v20.1.0");
}

#[test]
fn engines_ranks_prereleases_by_semver() {
    let registry = registry_of(&["22.0.0-beta.1", "22.0.0-beta.3", "22.0.0-beta.2"], None);
    let config = config_with_default(None);
    let resolver = EnginesResolver::new(&registry, &config);
    assert_eq!(resolver.resolve_smart(">=22.0.0-beta.1").unwrap(), "22.0.0-beta.3");
}

#[test]
fn releases_outrank_their_prereleases() {
    let mock = mock_with(&["20.0.0-rc.1", "20.0.0", "19.9.9"]);
    let resolver = SemverResolver::new(&mock);
    assert_eq!(resolver.resolve(">=19.0.0").unwrap(), "20.0.0");
}

fn registry_of(versions: &[&str], current: Option<&str>) -> PluginRegistry {
    let mut plugin = MockPlugin::new("mock").with_versions(versions);
    if let Some(c) = current {
        plugin = plugin.with_current_version(c);
    }
    PluginRegistry::with_plugins(vec![Plugin::Mock(plugin)])
}

fn config_with_default(default_version: Option<&str>) -> Config {
    let mut config = Config::default();
    config.default_version = default_version.map(|s| s.to_string());
    config
}

#[test]
fn test_engines_prefers_default_when_satisfies() {
    let registry = registry_of(&["18.20.0", "20.11.0", "22.0.0"], None);
    let config = config_with_default(Some("20.11.0"));
    let resolver = EnginesResolver::new(&registry, &config);
    assert_eq!(resolver.resolve_smart(">=18.0.0").unwrap(), "20.11.0");
}

#[test]
fn test_engines_uses_lts_when_default_insufficient() {
    let registry = registry_of(&["18.20.0", "20.11.0", "22.0.0"], None);
    let config = config_with_default(Some("18.20.0"));
    let resolver = EnginesResolver::new(&registry, &config);
    assert_eq!(resolver.resolve_smart(">=20.0.0").unwrap(), "22.0.0");
}

#[test]
fn test_engines_fallback_to_highest_when_no_lts() {
    let registry = registry_of(&["19.0.0", "21.0.0", "23.0.0"], None);
    let config = config_with_default(Some("19.0.0"));
    let resolver = EnginesResolver::new(&registry, &config);
    assert_eq!(resolver.resolve_smart(">=20.0.0").unwrap(), "23.0.0");
}

#[test]
fn test_engines_no_default_version() {
    let registry = registry_of(&["18.20.0", "20.11.0", "22.0.0"], None);
    let config = config_with_default(None);
    let resolver = EnginesResolver::new(&registry, &config);
    assert_eq!(resolver.resolve_smart(">=18.0.0").unwrap(), "22.0.0");
}

#[test]
fn test_engines_no_matching_versions() {
    let registry = registry_of(&["16.20.0", "18.20.0"], None);
    let config = config_with_default(Some("18.20.0"));
    let resolver = EnginesResolver::new(&registry, &config);
    assert_eq!(resolver.resolve_smart(">=20.0.0").unwrap(), ">=20.0.0");
}

fn key(major: u64) -> VersionKey {
    VersionKey { major, minor: 0, patch: 0, pre: String::new() }
}

#[test]
fn test_is_lts_version() {
    let registry = PluginRegistry::with_plugins(vec![]);
    let config = config_with_default(None);
    let resolver = EnginesResolver::new(&registry, &config);
    assert!(resolver.is_lts_version(&key(16)));
    assert!(resolver.is_lts_version(&key(18)));
    assert!(resolver.is_lts_version(&key(20)));
    assert!(resolver.is_lts_version(&key(22)));
    assert!(!resolver.is_lts_version(&key(17)));
    assert!(!resolver.is_lts_version(&key(19)));
    assert!(!resolver.is_lts_version(&key(21)));
}

#[test]
fn engines_picks_highest_even_major_across_backends() {
    let registry = PluginRegistry::with_plugins(vec![
        Plugin::Mock(MockPlugin::new("one").with_versions(&["18.0.0", "20.0.0"])),
        Plugin::Mock(MockPlugin::new("two").with_versions(&["20.11.0", "22.0.0"])),
    ]);
    let config = config_with_default(None);
    let resolver = EnginesResolver::new(&registry, &config);
    assert_eq!(resolver.resolve_smart(">=20.0.0").unwrap(), "22.0.0");
}

#[test]
fn engines_uses_current_version_of_first_backend() {
    let registry = registry_of(&["18.20.0", "20.11.0", "22.0.0"], Some("v20.11.0"));
    let config = config_with_default(None);
    let resolver = EnginesResolver::new(&registry, &config);
    assert_eq!(resolver.resolve_smart(">=18.0.0").unwrap(), "v20.11.0");
    assert_eq!(resolver.resolve_smart("not a range").unwrap(), "not a range");
}

#[test]
fn engines_skips_unavailable_backend_for_current_version() {
    let registry = PluginRegistry::with_plugins(vec![
        Plugin::Mock(
            MockPlugin::new("off").with_availability(false).with_current_version("22.0.0"),
        ),
        Plugin::Mock(
            MockPlugin::new("on")
                .with_versions(&["20.0.0", "22.0.0"])
                .with_current_version("20.0.0"),
        ),
    ]);
    let config = config_with_default(None);
    let resolver = EnginesResolver::new(&registry, &config);
    assert_eq!(resolver.resolve_smart(">=18").unwrap(), "20.0.0");
    let config = config_with_default(Some(""));
    let resolver = EnginesResolver::new(&registry, &config);
    assert_eq!(resolver.resolve_smart(">=18").unwrap(), "20.0.0");
}
