use agent_of_empires::environment::{
    build_docker_env_args, collect_environment, resolve_env_value, shell_escape, validate_env_entry,
};
use agent_of_empires::session::{SandboxConfig, SandboxInfo};

fn host(pairs: &[(&str, &str)]) -> Vec<(String, String)> {
    pairs.iter().map(|(k, v)| (k.to_string(), v.to_string())).collect()
}

fn info(extra_env: Option<Vec<String>>) -> SandboxInfo {
    SandboxInfo {
        enabled: true,
        container_id: None,
        image: "test".to_string(),
        container_name: "test".to_string(),
        created_at: None,
        extra_env,
        custom_instruction: None,
    }
}

#[test]
fn test_shell_escape_simple() {
    assert_eq!(shell_escape("hello"), "\"hello\"");
}

#[test]
fn test_shell_escape_quotes() {
    assert_eq!(shell_escape("say \"hello\""), "\"say \\\"hello\\\"\"");
}

#[test]
fn test_shell_escape_backslash() {
    assert_eq!(shell_escape("path\\to\\file"), "\"path\\\\to\\\\file\"");
}

#[test]
fn test_shell_escape_dollar() {
    assert_eq!(shell_escape("$HOME/path"), "\"\\$HOME/path\"");
}

#[test]
fn test_shell_escape_backtick() {
    assert_eq!(shell_escape("run `cmd`"), "\"run \\`cmd\\`\"");
}

#[test]
fn test_shell_escape_newline() {
    assert_eq!(shell_escape("line1\nline2"), "\"line1\\nline2\"");
}

#[test]
fn test_shell_escape_carriage_return() {
    assert_eq!(shell_escape("line1\rline2"), "\"line1\\rline2\"");
}

#[test]
fn test_shell_escape_multiline_instruction() {
    let instruction = "First instruction.\nSecond instruction.\nThird instruction.";
    let escaped = shell_escape(instruction);
    assert_eq!(escaped, "\"First instruction.\\nSecond instruction.\\nThird instruction.\"");
    assert!(!escaped.contains('\n'));
}

#[test]
fn test_shell_escape_crlf() {
    assert_eq!(shell_escape("line1\r\nline2"), "\"line1\\r\\nline2\"");
}

#[test]
fn test_shell_escape_combined() {
    let input = "Say \"hello\"\nRun `echo $HOME`";
    let escaped = shell_escape(input);
    assert_eq!(escaped, "\"Say \\\"hello\\\"\\nRun \\`echo \\$HOME\\`\"");
    assert!(!escaped.contains('\n'));
}

#[test]
fn test_collect_environment_passthrough() {
    let h = host(&[("AOE_TEST_ENV_PT", "test_value")]);
    let config = SandboxConfig { environment: vec!["AOE_TEST_ENV_PT".to_string()], ..Default::default() };
    let result = collect_environment(&config, &info(None), &h);
    assert!(result.iter().any(|(k, v)| k == "AOE_TEST_ENV_PT" && v == "test_value"));
}

#[test]
fn test_collect_environment_key_value() {
    let config = SandboxConfig { environment: vec!["MY_KEY=my_value".to_string()], ..Default::default() };
    let result = collect_environment(&config, &info(None), &host(&[]));
    assert!(result.iter().any(|(k, v)| k == "MY_KEY" && v == "my_value"));
}

#[test]
fn test_collect_environment_extra_env() {
    let h = host(&[("AOE_TEST_EXTRA", "extra_val")]);
    let config = SandboxConfig::default();
    let sandbox = info(Some(vec!["AOE_TEST_EXTRA".to_string(), "FOO=bar".to_string()]));
    let result = collect_environment(&config, &sandbox, &h);
    assert!(result.iter().any(|(k, v)| k == "AOE_TEST_EXTRA" && v == "extra_val"));
    assert!(result.iter().any(|(k, v)| k == "FOO" && v == "bar"));
}

#[test]
fn test_collect_environment_extra_env_is_authoritative() {
    let config = SandboxConfig { environment: vec!["DUP_KEY=from_config".to_string()], ..Default::default() };
    let sandbox = info(Some(vec!["DUP_KEY=from_session".to_string()]));
    let result = collect_environment(&config, &sandbox, &host(&[]));
    let dup_entries: Vec<_> = result.iter().filter(|(k, _)| k == "DUP_KEY").collect();
    assert_eq!(dup_entries.len(), 1);
    assert_eq!(dup_entries[0].1, "from_session");
}

#[test]
fn test_collect_environment_falls_back_to_config_when_no_extra() {
    let config = SandboxConfig { environment: vec!["CONFIG_KEY=config_val".to_string()], ..Default::default() };
    let result = collect_environment(&config, &info(None), &host(&[]));
    assert!(result.iter().any(|(k, v)| k == "CONFIG_KEY" && v == "config_val"));
}

#[test]
fn test_collect_environment_dollar_ref() {
    let h = host(&[("AOE_TEST_HOST_REF", "host_val")]);
    let config = SandboxConfig { environment: vec!["INJECTED=$AOE_TEST_HOST_REF".to_string()], ..Default::default() };
    let result = collect_environment(&config, &info(None), &h);
    assert!(result.iter().any(|(k, v)| k == "INJECTED" && v == "host_val"));
}

#[test]
fn test_collect_environment_dollar_dollar_escape() {
    let config = SandboxConfig { environment: vec!["ESCAPED=$$LITERAL".to_string()], ..Default::default() };
    let result = collect_environment(&config, &info(None), &host(&[]));
    assert!(result.iter().any(|(k, v)| k == "ESCAPED" && v == "$LITERAL"));
}

#[test]
fn test_validate_env_entry_bare_key_present() {
    let h = host(&[("AOE_TEST_VALIDATE_BARE", "exists")]);
    assert_eq!(validate_env_entry("AOE_TEST_VALIDATE_BARE", &h), None);
}

#[test]
fn test_validate_env_entry_bare_key_missing() {
    let result = validate_env_entry("AOE_TEST_VALIDATE_MISSING_BARE", &host(&[]));
    assert!(result.is_some());
    assert!(result.unwrap().contains("AOE_TEST_VALIDATE_MISSING_BARE"));
}

#[test]
fn test_validate_env_entry_key_dollar_var_present() {
    let h = host(&[("AOE_TEST_VALIDATE_REF", "value")]);
    assert_eq!(validate_env_entry("MY_KEY=$AOE_TEST_VALIDATE_REF", &h), None);
}

#[test]
fn test_validate_env_entry_key_dollar_var_missing() {
    let result = validate_env_entry("MY_KEY=$AOE_TEST_VALIDATE_MISSING_REF", &host(&[]));
    assert!(result.is_some());
    assert!(result.unwrap().contains("AOE_TEST_VALIDATE_MISSING_REF"));
}

#[test]
fn test_validate_env_entry_literal_value() {
    assert_eq!(validate_env_entry("MY_KEY=some_literal", &host(&[])), None);
}

#[test]
fn test_validate_env_entry_escaped_dollar() {
    assert_eq!(validate_env_entry("MY_KEY=$$ESCAPED", &host(&[])), None);
}

#[test]
fn test_build_docker_env_args_with_extra_env() {
    let h = host(&[("AOE_TEST_TOKEN", "secret123")]);
    let sandbox = info(Some(vec!["MY_TOKEN=$AOE_TEST_TOKEN".to_string()]));
    let result = build_docker_env_args(&sandbox, &SandboxConfig::default(), &h);
    assert!(result.contains("MY_TOKEN"), "Expected MY_TOKEN in args: {}", result);
    assert!(result.contains("secret123"), "Expected secret123 in args: {}", result);
}

#[test]
fn test_build_docker_env_args_bare_key() {
    let h = host(&[("AOE_TEST_BARE", "barevalue")]);
    let sandbox = info(Some(vec!["AOE_TEST_BARE".to_string()]));
    let result = build_docker_env_args(&sandbox, &SandboxConfig::default(), &h);
    assert!(result.contains("AOE_TEST_BARE"), "Expected AOE_TEST_BARE in args: {}", result);
    assert!(result.contains("barevalue"), "Expected barevalue in args: {}", result);
}

#[test]
fn terminal_variables_come_first_and_missing_ones_are_skipped() {
    let h = host(&[("TERM", "xterm"), ("NO_COLOR", "1"), ("X", "y")]);
    let config = SandboxConfig { environment: vec!["X".to_string(), "TERM=dumb".to_string()], ..Default::default() };
    let result = collect_environment(&config, &info(None), &h);
    assert_eq!(
        result,
        vec![
            ("TERM".to_string(), "xterm".to_string()),
            ("NO_COLOR".to_string(), "1".to_string()),
            ("X".to_string(), "y".to_string()),
        ]
    );
}

#[test]
fn env_value_resolution() {
    let h = host(&[("A", "1")]);
    assert_eq!(resolve_env_value("$A", &h), Some("1".to_string()));
    assert_eq!(resolve_env_value("$B", &h), None);
    assert_eq!(resolve_env_value("$$A", &h), Some("$A".to_string()));
    assert_eq!(resolve_env_value("plain", &h), Some("plain".to_string()));
}

#[test]
fn docker_flags_are_escaped() {
    let h = host(&[]);
    let sandbox = info(Some(vec!["K=a b\"c".to_string()]));
    let result = build_docker_env_args(&sandbox, &SandboxConfig::default(), &h);
    assert_eq!(result, "-e K=\"a b\\\"c\"");
}
