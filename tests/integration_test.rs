use anvs::activation::{Action, Orchestrator};
use anvs::config::{AutoInstallMode, Config};
use anvs::init::{choose_wizard_mode, generate_config, WizardMode};
use anvs::plugins::{MockPlugin, Plugin, VersionManagerPlugin};
use anvs::registry::PluginRegistry;
use anvs::shell::JsonCommandWriter;
use anvs::version_file::{DirProbe, FileProbe, VersionFile};

fn config(mode: AutoInstallMode) -> Config {
    Config {
        plugins: vec!["mock".to_string()],
        auto_install: mode,
        version_files: vec![".nvmrc".to_string()],
        use_default: true,
        default_version: None,
    }
}

fn empty_dir() -> Vec<DirProbe> {
    vec![DirProbe { dir: "/tmp/empty".to_string(), files: vec![FileProbe::Missing] }]
}

fn nvmrc(content: &str) -> Vec<DirProbe> {
    vec![DirProbe {
        dir: "/tmp/proj".to_string(),
        files: vec![FileProbe::Contents(content.to_string())],
    }]
}

fn run(config: &Config, registry: &PluginRegistry, levels: &Vec<DirProbe>, use_default: bool) -> Action {
    let found = VersionFile::find(levels, &config.version_files);
    Orchestrator::new(config, registry).activate(&found, use_default)
}

fn command_of(action: Action) -> Option<String> {
    match action {
        Action::Run { command, .. } => Some(command),
        Action::Nothing => None,
        other => panic!("unexpected {other:?}"),
    }
}

#[test]
fn test_no_version_file() {
    let config = config(AutoInstallMode::Never);
    let registry = PluginRegistry::with_plugins(vec![]);
    assert!(matches!(run(&config, &registry, &empty_dir(), false), Action::Nothing));
}

#[test]
fn test_version_file_read_error() {
    let config = config(AutoInstallMode::Never);
    let registry = PluginRegistry::with_plugins(vec![]);
    assert!(matches!(run(&config, &registry, &empty_dir(), false), Action::Nothing));
}

#[test]
fn test_activate_default_version_when_use_default_enabled() {
    let mut config = config(AutoInstallMode::Never);
    config.use_default = true;
    let registry = PluginRegistry::with_plugins(vec![Plugin::Mock(
        MockPlugin::new("mock")
            .with_availability(true)
            .with_default_version("20.0.0")
            .with_version("20.0.0"),
    )]);
    let action = run(&config, &registry, &empty_dir(), true);
    assert_eq!(command_of(action), Some("mock use 20.0.0".to_string()));
}

#[test]
fn test_no_activate_default_when_use_default_disabled() {
    let mut config = config(AutoInstallMode::Never);
    config.use_default = false;
    let registry = PluginRegistry::with_plugins(vec![Plugin::Mock(
        MockPlugin::new("mock").with_availability(true).with_default_version("20.0.0"),
    )]);
    assert_eq!(command_of(run(&config, &registry, &empty_dir(), true)), None);
}

#[test]
fn test_no_activate_default_when_flag_not_passed() {
    let mut config = config(AutoInstallMode::Never);
    config.use_default = true;
    let registry = PluginRegistry::with_plugins(vec![Plugin::Mock(
        MockPlugin::new("mock").with_availability(true).with_default_version("20.0.0"),
    )]);
    assert_eq!(command_of(run(&config, &registry, &empty_dir(), false)), None);
}

#[test]
fn test_activate_default_no_default_configured() {
    let mut config = config(AutoInstallMode::Never);
    config.use_default = true;
    let registry = PluginRegistry::with_plugins(vec![Plugin::Mock(
        MockPlugin::new("mock").with_availability(true),
    )]);
    assert_eq!(command_of(run(&config, &registry, &empty_dir(), true)), None);
}

#[test]
fn test_activate_default_multiple_plugins() {
    let mut config = config(AutoInstallMode::Never);
    config.use_default = true;
    let registry = PluginRegistry::with_plugins(vec![
        Plugin::Mock(MockPlugin::new("first").with_availability(true)),
        Plugin::Mock(
            MockPlugin::new("second")
                .with_availability(true)
                .with_default_version("18.20.0")
                .with_version("18.20.0"),
        ),
    ]);
    let action = run(&config, &registry, &empty_dir(), true);
    assert_eq!(command_of(action), Some("second use 18.20.0".to_string()));
}

#[test]
fn test_version_file_takes_precedence_over_default() {
    let mut config = config(AutoInstallMode::Never);
    config.use_default = true;
    let registry = PluginRegistry::with_plugins(vec![Plugin::Mock(
        MockPlugin::new("mock")
            .with_availability(true)
            .with_default_version("20.0.0")
            .with_version("18.20.0")
            .with_version("20.0.0"),
    )]);
    let action = run(&config, &registry, &nvmrc("18.20.0"), true);
    assert_eq!(command_of(action), Some("mock use 18.20.0".to_string()));
}

#[test]
fn test_find_no_version_file() {
    let result = VersionFile::find(&empty_dir(), &vec![".nvmrc".to_string()]).unwrap();
    assert!(result.is_none());
}

#[test]
fn test_e2e_multiple_plugins_first_has_version() {
    let registry = PluginRegistry::with_plugins(vec![
        Plugin::Mock(MockPlugin::new("nvm").with_version("18.20.0").with_availability(true)),
        Plugin::Mock(MockPlugin::new("fnm").with_version("20.0.0").with_availability(true)),
    ]);
    let found = registry.find_plugin_with_version("18.20.0").unwrap();
    assert_eq!(found.unwrap().name(), "nvm");
}

#[test]
fn test_fallback_first_unavailable() {
    let registry = PluginRegistry::with_plugins(vec![
        Plugin::Mock(MockPlugin::new("nvm").with_availability(false).with_version("18.20.0")),
        Plugin::Mock(MockPlugin::new("fnm").with_availability(true).with_version("18.20.0")),
    ]);
    let found = registry.find_plugin_with_version("18.20.0").unwrap();
    assert_eq!(found.unwrap().name(), "fnm");
}

#[test]
fn test_fallback_first_no_version() {
    let registry = PluginRegistry::with_plugins(vec![
        Plugin::Mock(MockPlugin::new("nvm").with_availability(true).with_version("20.0.0")),
        Plugin::Mock(MockPlugin::new("fnm").with_availability(true).with_version("18.20.0")),
    ]);
    let found = registry.find_plugin_with_version("18.20.0").unwrap();
    assert_eq!(found.unwrap().name(), "fnm");
}

#[test]
fn test_fallback_all_unavailable() {
    let registry = PluginRegistry::with_plugins(vec![
        Plugin::Mock(MockPlugin::new("nvm").with_availability(false).with_version("18.20.0")),
        Plugin::Mock(MockPlugin::new("fnm").with_availability(false).with_version("18.20.0")),
    ]);
    assert!(registry.find_available_plugin().unwrap().is_none());
}

#[test]
fn test_fallback_respects_priority_order() {
    let registry = PluginRegistry::with_plugins(vec![
        Plugin::Mock(MockPlugin::new("first").with_availability(true).with_version("18.20.0")),
        Plugin::Mock(MockPlugin::new("second").with_availability(true).with_version("18.20.0")),
    ]);
    let found = registry.find_plugin_with_version("18.20.0").unwrap();
    assert_eq!(found.unwrap().name(), "first");
}

#[test]
fn test_registry_find_available_plugin_for_version() {
    let registry = PluginRegistry::with_plugins(vec![
        Plugin::Mock(MockPlugin::new("first").with_version("18.20.0")),
        Plugin::Mock(MockPlugin::new("second").with_version("20.0.0")),
    ]);
    let found = registry.find_plugin_with_version("18.20.0").unwrap();
    assert!(found.is_some());
    assert_eq!(found.unwrap().name(), "first");
}

#[test]
fn test_registry_no_plugin_has_version() {
    let registry = PluginRegistry::with_plugins(vec![
        Plugin::Mock(MockPlugin::new("first").with_version("18.20.0")),
        Plugin::Mock(MockPlugin::new("second").with_version("20.0.0")),
    ]);
    assert!(registry.find_plugin_with_version("99.99.99").unwrap().is_none());
}

#[test]
fn test_plugin_priority_with_mocks() {
    let registry = PluginRegistry::with_plugins(vec![
        Plugin::Mock(MockPlugin::new("first").with_version("18.20.0")),
        Plugin::Mock(MockPlugin::new("second").with_version("18.20.0")),
    ]);
    let found = registry.find_plugin_with_version("18.20.0").unwrap();
    assert_eq!(found.unwrap().name(), "first");
}

#[test]
fn test_plugin_priority_unavailable_skipped() {
    let registry = PluginRegistry::with_plugins(vec![
        Plugin::Mock(MockPlugin::new("first").with_availability(false).with_version("18.20.0")),
        Plugin::Mock(MockPlugin::new("second").with_version("18.20.0")),
    ]);
    let found = registry.find_plugin_with_version("18.20.0").unwrap();
    assert_eq!(found.unwrap().name(), "second");
}

#[test]
fn test_empty_writer() {
    let writer = JsonCommandWriter::new();
    assert_eq!(writer.render().unwrap(), None);
}

#[test]
fn test_json_serialization() {
    let mut writer = JsonCommandWriter::new();
    writer.add_command("cmd1".to_string());
    writer.add_command("cmd2".to_string());
    let json = writer.render().unwrap().unwrap();
    assert!(json.contains("cmd1"));
    assert!(json.contains("cmd2"));
    assert!(json.contains("commands"));
}

#[test]
fn test_generate_config_format() {
    let config = Config {
        plugins: vec!["nvm".to_string(), "fnm".to_string()],
        auto_install: AutoInstallMode::Prompt,
        version_files: vec![".nvmrc".to_string()],
        use_default: true,
        default_version: None,
    };
    let yaml = generate_config(&config, "2025-01-01 00:00:00");
    assert!(yaml.contains("plugins:"));
    assert!(yaml.contains("  - nvm"));
    assert!(yaml.contains("  - fnm"));
    assert!(yaml.contains("auto_install: prompt"));
    let parsed: serde_yaml::Value = serde_yaml::from_str(&yaml).unwrap();
    assert!(parsed["plugins"].is_sequence());
}

#[test]
fn test_init_quick_and_advanced_advanced_wins() {
    assert_eq!(choose_wizard_mode(true, true), WizardMode::Advanced);
}

#[test]
fn init_test_test_wizard_mode_enum_exists() {
    let quick = WizardMode::Quick;
    let advanced = WizardMode::Advanced;
    assert_ne!(quick, advanced);
}
