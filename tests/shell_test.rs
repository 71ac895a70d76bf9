use anvs::output::install_prompt;
use anvs::shell::{
    escape_powershell, frame_commands, JsonCommandWriter, MockCommandWriter, OutputProtocol,
};

#[test]
fn test_json_export_env() {
    let mut writer = JsonCommandWriter::new();
    writer.export_env("NODE_VERSION", "18.0.0");
    assert_eq!(writer.commands[0], r#"$env:NODE_VERSION = "18.0.0""#);
}

#[test]
fn test_json_prepend_path() {
    let mut writer = JsonCommandWriter::new();
    writer.prepend_path(r"C:\nvm\v18.0.0");
    assert_eq!(writer.commands[0], r#"$env:PATH = "C:\nvm\v18.0.0;" + $env:PATH"#);
}

#[test]
fn test_json_escaping() {
    let mut writer = JsonCommandWriter::new();
    writer.export_env("TEST", r#"value with "quotes" and $vars"#);
    assert!(writer.commands[0].contains(r#"`""#));
    assert!(writer.commands[0].contains(r#"`$"#));
}

#[test]
fn test_json_escaping_backtick() {
    let mut writer = JsonCommandWriter::new();
    writer.export_env("TEST", "value with `backticks`");
    assert!(writer.commands[0].contains("``"));
}

#[test]
fn test_multiple_commands() {
    let mut writer = JsonCommandWriter::new();
    writer.export_env("NODE_VERSION", "18.0.0");
    writer.prepend_path(r"C:\nvm\v18.0.0");
    assert_eq!(writer.commands.len(), 2);
}

#[test]
fn test_add_raw_command() {
    let mut writer = JsonCommandWriter::new();
    writer.add_command("Write-Host 'Hello'".to_string());
    assert_eq!(writer.commands[0], "Write-Host 'Hello'");
}

#[test]
fn test_protocol_detect() {
    assert_eq!(OutputProtocol::detect(false), OutputProtocol::Fd3);
    assert_eq!(OutputProtocol::detect(true), OutputProtocol::Json);
}

#[test]
fn powershell_escaping_is_exact() {
    assert_eq!(escape_powershell(r#"a`b$c"d"#), r#"a``b`$c`"d"#);
    assert_eq!(escape_powershell(""), "");
}

#[test]
fn json_block_is_framed() {
    let empty = JsonCommandWriter::new();
    assert_eq!(empty.render().unwrap(), None);
    let mut writer = JsonCommandWriter::new();
    writer.add_command("nvm use 18".to_string());
    writer.add_command("say \"hi\"".to_string());
    assert_eq!(
        writer.render().unwrap().unwrap(),
        "__ANVS_COMMANDS_START__\n{\"commands\":[\"nvm use 18\",\"say \\\"hi\\\"\"]}\n__ANVS_COMMANDS_END__\n"
    );
}

#[test]
fn mock_writer_keeps_commands() {
    let mut writer = MockCommandWriter::new();
    assert!(writer.is_available());
    writer.write_command("nvm use 18").unwrap();
    assert_eq!(writer.commands, vec!["nvm use 18"]);
}

#[test]
fn install_prompt_names_version_and_backend() {
    assert_eq!(
        install_prompt("18.20.0", "nvm"),
        "anvs: Node.js 18.20.0 is not installed. Install it using nvm?"
    );
}

#[test]
fn framing_wraps_the_list() {
    assert_eq!(
        frame_commands("[\"a\"]"),
        "__ANVS_COMMANDS_START__\n{\"commands\":[\"a\"]}\n__ANVS_COMMANDS_END__\n"
    );
}
