use workbench_core::launch::{
    build_execution_args, decimal_string, escape_prompt_for_cli, inherits_env_var, launch_args,
    map_model_to_claude_alias, nvm_path, LaunchMode,
};
use workbench_core::permissions::{
    all_tools, build_permission_args, validate_permission_config, ClaudeExecutionConfig, ClaudePermissionConfig, OutputFormat,
    PermissionMode,
};

#[test]
fn escapes_plain_prompt_in_single_quotes() {
    assert_eq!(escape_prompt_for_cli("hello world"), "'hello world'");
    assert_eq!(escape_prompt_for_cli("a\nb\t$x `c` \"q\" \\"), "'a\\nb\\t\\$x \\`c\\` \\\"q\\\" \\\\'");
    assert_eq!(escape_prompt_for_cli("it's"), "'it\\'\"'\"'s'");
    assert_eq!(escape_prompt_for_cli("nul\0gone"), "'nulgone'");
}

#[test]
fn slash_commands_pass_raw() {
    assert_eq!(escape_prompt_for_cli("  /help\n"), "/help");
    assert_eq!(escape_prompt_for_cli("/compact keep\nthis\r\n"), "/compact keep this");
}

#[test]
fn model_aliases() {
    assert_eq!(map_model_to_claude_alias("sonnet1m"), "sonnet[1m]");
    assert_eq!(map_model_to_claude_alias("opus"), "opus");
    assert_eq!(map_model_to_claude_alias("my-model"), "my-model");
}

#[test]
fn decimal_numerals() {
    assert_eq!(decimal_string(0), "0");
    assert_eq!(decimal_string(7), "7");
    assert_eq!(decimal_string(1234), "1234");
    assert_eq!(decimal_string(u64::from(u32::MAX)), "4294967295");
    assert_eq!(decimal_string(u64::MAX), "18446744073709551615");
}

#[test]
fn default_config_args_use_legacy_switch() {
    let c = ClaudeExecutionConfig::default_config();
    let args = build_execution_args(&c, "hi", "sonnet");
    assert_eq!(
        args,
        vec!["'hi'", "--model", "sonnet", "--output-format", "stream-json", "--verbose", "--dangerously-skip-permissions"]
    );
}

#[test]
fn fine_grained_permission_args() {
    let mut c = ClaudeExecutionConfig::default_config();
    c.permissions = ClaudePermissionConfig::safe_mode();
    c.timeout_seconds = Some(30);
    c.max_tokens = Some(4096);
    c.verbose = false;
    c.output_format = OutputFormat::Json;
    let args = build_execution_args(&c, "x", "opus");
    assert_eq!(
        args,
        vec![
            "'x'", "--model", "opus", "--output-format", "json", "--timeout", "30", "--max-tokens", "4096",
            "--allowedTools", "Read,Search", "--disallowedTools", "Bash,WebFetch", "--permission-mode", "readOnly"
        ]
    );
    let dev = build_permission_args(&ClaudePermissionConfig::development_mode());
    assert_eq!(dev, vec!["--allowedTools", "Bash,Read,Write,Edit", "--permission-mode", "acceptEdits"]);
    let legacy = build_permission_args(&ClaudePermissionConfig::legacy_mode());
    assert_eq!(legacy, vec!["--dangerously-skip-permissions"]);
    let inter = ClaudePermissionConfig::interactive_mode();
    assert_eq!(inter.permission_mode, PermissionMode::Interactive);
    assert_eq!(build_permission_args(&inter), vec!["--allowedTools", "Read,Write,Edit", "--permission-mode", "interactive"]);
}

#[test]
fn continue_and_resume_prefix_args() {
    let c = ClaudeExecutionConfig::default_config();
    let cont = launch_args(&c, "hi", "sonnet1m", LaunchMode::Continue);
    assert_eq!(cont[0], "-c");
    assert_eq!(cont[3], "sonnet[1m]");
    let res = launch_args(&c, "hi", "opus", LaunchMode::Resume { session_id: "badsid".to_string() });
    assert_eq!(&res[..3], &["--resume", "badsid", "'hi'"]);
    let new = launch_args(&c, "hi", "opus", LaunchMode::New);
    assert_eq!(new[0], "'hi'");
}

#[test]
fn inherited_environment() {
    for k in ["PATH", "HOME", "LC_CTYPE", "ANTHROPIC_BASE_URL", "CLAUDE_CODE_USE_X", "API_TIMEOUT_MS", "NVM_BIN"] {
        assert!(inherits_env_var(k), "{}", k);
    }
    for k in ["SECRET", "PATHS", "anthropic_key", "LC", "TERM"] {
        assert!(!inherits_env_var(k), "{}", k);
    }
}

#[test]
fn nvm_binaries_get_their_dir_on_path() {
    let prog = "/home/u/.nvm/versions/node/v20/bin/agent";
    assert_eq!(nvm_path(prog, "/usr/bin"), Some("/home/u/.nvm/versions/node/v20/bin:/usr/bin".to_string()));
    assert_eq!(nvm_path(prog, "/home/u/.nvm/versions/node/v20/bin:/usr/bin"), None);
    assert_eq!(nvm_path("/usr/local/bin/agent", "/usr/bin"), None);
}

#[test]
fn permission_validation() {
    let mut c = ClaudePermissionConfig::interactive_mode();
    c.disallowed_tools = vec!["Write".to_string(), "Bash".to_string()];
    c.permission_mode = PermissionMode::ReadOnly;
    let r = validate_permission_config(&c);
    assert_eq!(r.conflicts, vec!["Write"]);
    assert!(!r.valid());
    assert!(r.read_only_write_warning);
    assert!(!r.skip_warning);
    let ok = validate_permission_config(&ClaudePermissionConfig::default_config());
    assert!(ok.valid());
    assert!(ok.skip_warning);
    assert!(!ok.read_only_write_warning);
}

#[test]
fn tool_groups() {
    assert_eq!(all_tools(), vec!["Bash", "Read", "Write", "Edit", "WebFetch", "Task", "TodoWrite"]);
}
