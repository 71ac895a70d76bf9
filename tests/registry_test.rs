use anvs::plugins::{MockPlugin, Plugin, VersionManagerPlugin};
use anvs::registry::PluginRegistry;

#[test]
fn test_registry_loads_plugins() {
    let registry = PluginRegistry::new(&["nvm".to_string(), "fnm".to_string()]);
    assert_eq!(registry.plugins().len(), 2);
}

#[test]
fn test_registry_ignores_unknown_plugins() {
    let registry =
        PluginRegistry::new(&["nvm".to_string(), "unknown".to_string(), "fnm".to_string()]);
    assert_eq!(registry.plugins().len(), 2);
}

#[test]
fn registry_test_registry_respects_priority_order() {
    let registry = PluginRegistry::new(&["fnm".to_string(), "nvm".to_string()]);
    let plugins = registry.plugins();
    assert_eq!(plugins[0].name(), "fnm");
    assert_eq!(plugins[1].name(), "nvm");
}

#[test]
fn test_get_plugin_by_name() {
    let registry = PluginRegistry::new(&["nvm".to_string(), "fnm".to_string()]);
    let nvm = registry.get_plugin("nvm");
    assert!(nvm.is_some());
    assert_eq!(nvm.unwrap().name(), "nvm");
    let unknown = registry.get_plugin("unknown");
    assert!(unknown.is_none());
}

#[test]
fn test_default_registry() {
    let registry = PluginRegistry::default();
    assert_eq!(registry.plugins().len(), 2);
    assert_eq!(registry.plugins()[0].name(), "nvm");
    assert_eq!(registry.plugins()[1].name(), "fnm");
}

#[test]
fn test_registry_loads_nvm_plugin() {
    let registry = PluginRegistry::new(&["nvm".to_string()]);
    let plugins = registry.plugins();
    assert_eq!(plugins.len(), 1);
    assert_eq!(plugins[0].name(), "nvm");
}

#[test]
fn test_registry_loads_fnm_plugin() {
    let registry = PluginRegistry::new(&["fnm".to_string()]);
    let plugins = registry.plugins();
    assert_eq!(plugins.len(), 1);
    assert_eq!(plugins[0].name(), "fnm");
}

#[test]
fn plugin_loading_test_test_registry_respects_priority_order() {
    let registry = PluginRegistry::new(&["fnm".to_string(), "nvm".to_string()]);
    let plugins = registry.plugins();
    assert_eq!(plugins.len(), 2);
    assert_eq!(plugins[0].name(), "fnm");
    assert_eq!(plugins[1].name(), "nvm");
}

#[test]
fn test_registry_with_unknown_plugin() {
    let registry = PluginRegistry::new(&[
        "nvm".to_string(),
        "unknown_plugin".to_string(),
        "fnm".to_string(),
    ]);
    let plugins = registry.plugins();
    assert_eq!(plugins.len(), 2);
    assert_eq!(plugins[0].name(), "nvm");
    assert_eq!(plugins[1].name(), "fnm");
}

#[test]
fn test_registry_default_plugins() {
    let registry = PluginRegistry::new(&["nvm".to_string(), "fnm".to_string()]);
    let plugins = registry.plugins();
    assert_eq!(plugins.len(), 2);
    assert_eq!(plugins[0].name(), "nvm");
    assert_eq!(plugins[1].name(), "fnm");
}

#[test]
fn test_registry_empty_plugin_list() {
    let registry = PluginRegistry::new(&[]);
    assert_eq!(registry.plugins().len(), 0);
}

#[test]
fn test_registry_single_plugin() {
    let registry = PluginRegistry::new(&["nvm".to_string()]);
    let plugins = registry.plugins();
    assert_eq!(plugins.len(), 1);
    assert_eq!(plugins[0].name(), "nvm");
}

#[test]
fn test_registry_duplicate_plugins_in_config() {
    let registry =
        PluginRegistry::new(&["nvm".to_string(), "fnm".to_string(), "nvm".to_string()]);
    let plugins = registry.plugins();
    assert_eq!(plugins.len(), 3);
    assert_eq!(plugins[0].name(), "nvm");
    assert_eq!(plugins[1].name(), "fnm");
    assert_eq!(plugins[2].name(), "nvm");
}

fn three_with(version: &str, unavailable: usize) -> PluginRegistry {
    let names = ["a", "b", "c"];
    let mut plugins = Vec::new();
    for (i, name) in names.iter().enumerate() {
        plugins.push(Plugin::Mock(
            MockPlugin::new(name).with_version(version).with_availability(i != unavailable),
        ));
    }
    PluginRegistry::with_plugins(plugins)
}

#[test]
fn priority_search_skips_only_the_unavailable_one() {
    for unavailable in 0..3 {
        let registry = three_with("18.20.0", unavailable);
        let found = registry.find_plugin_with_version("18.20.0").unwrap().unwrap();
        let expected = if unavailable == 0 { "b" } else { "a" };
        assert_eq!(found.name(), expected);
    }
}

#[test]
fn searches_report_nothing_when_nothing_fits() {
    let registry = PluginRegistry::with_plugins(vec![
        Plugin::Mock(MockPlugin::new("first").with_availability(false).with_version("1.0.0")),
        Plugin::Mock(MockPlugin::new("second").with_version("2.0.0")),
    ]);
    assert!(registry.find_plugin_with_version("1.0.0").unwrap().is_none());
    assert_eq!(registry.find_available_plugin().unwrap().unwrap().name(), "second");
    let available = registry.available_plugins();
    assert_eq!(available.len(), 1);
    assert_eq!(available[0].name(), "second");
    let none = PluginRegistry::with_plugins(vec![Plugin::Mock(
        MockPlugin::new("x").with_availability(false),
    )]);
    assert!(none.find_available_plugin().unwrap().is_none());
}
