use pi_grok::tool_args::{
    cli_tool_exclusions, configured_builtin_tools, eval_v2_only_tool_policy_applies,
    excluded_tools, has_explicit_tools_arg, has_no_tools_arg, normal_f2_tool_policy_applies,
    should_inject_tools_extension,
};

fn args(items: &[&str]) -> Vec<String> {
    items.iter().map(|s| s.to_string()).collect()
}

#[test]
fn detects_explicit_tools_allowlist() {
    assert!(has_explicit_tools_arg(&["--tools".into(), "read,grep".into()]));
    assert!(has_explicit_tools_arg(&["-t".into(), "read,grep".into()]));
    assert!(has_explicit_tools_arg(&["--tools=read,grep".into()]));
    assert!(!has_explicit_tools_arg(&["--exclude-tools".into(), "bash".into()]));
}

#[test]
fn detects_no_tools_flags() {
    assert!(has_no_tools_arg(&["--no-tools".into()]));
    assert!(has_no_tools_arg(&["-nt".into()]));
    assert!(has_no_tools_arg(&["--no-builtin-tools".into()]));
    assert!(has_no_tools_arg(&["-nbt".into()]));
    assert!(!has_no_tools_arg(&["--tools".into(), "read".into()]));
    assert!(!has_no_tools_arg(&["--exclude-tools".into(), "bash".into()]));
}

#[test]
fn extracts_excluded_tools() {
    assert_eq!(
        excluded_tools(&["--exclude-tools".into(), "bash,write".into()]),
        Some("bash,write".into())
    );
    assert_eq!(excluded_tools(&["-xt".into(), "grep".into()]), Some("grep".into()));
    assert_eq!(
        excluded_tools(&["--exclude-tools=bash,write".into()]),
        Some("bash,write".into())
    );
    assert_eq!(excluded_tools(&["--exclude-tools=".into()]), None);
    assert_eq!(excluded_tools(&["--tools".into(), "read".into()]), None);
}

#[test]
fn injection_policy_respects_cli_tool_overrides() {
    assert!(should_inject_tools_extension(&[]));
    assert!(should_inject_tools_extension(&["--exclude-tools=bash".into()]));
    assert!(!should_inject_tools_extension(&["--tools=read".into()]));
    assert!(!should_inject_tools_extension(&["--no-tools".into()]));
    assert_eq!(cli_tool_exclusions(&["--exclude-tools=bash,write".into()]), "bash,write");
}

#[test]
fn exclusion_flag_without_value_yields_nothing() {
    assert_eq!(excluded_tools(&args(&["--exclude-tools"])), None);
    assert_eq!(excluded_tools(&args(&["-xt", ""])), None);
    assert_eq!(cli_tool_exclusions(&args(&["--tools", "read"])), "");
    // The first exclusion flag decides, even when a later one has a value.
    assert_eq!(excluded_tools(&args(&["--exclude-tools=", "-xt", "bash"])), None);
}

#[test]
fn configured_builtin_tools_defaults_and_toggles() {
    assert_eq!(configured_builtin_tools(None), "read,bash,edit,write");
    assert_eq!(configured_builtin_tools(Some(&Vec::new())), "read,bash,edit,write");
    let toggles = vec![
        ("bash".to_string(), false),
        ("grep".to_string(), true),
        ("eval".to_string(), true),
        ("ls".to_string(), false),
    ];
    assert_eq!(configured_builtin_tools(Some(&toggles)), "read,edit,write,grep,eval");
    let none = vec![
        ("read".to_string(), false),
        ("bash".to_string(), false),
        ("edit".to_string(), false),
        ("write".to_string(), false),
    ];
    assert_eq!(configured_builtin_tools(Some(&none)), "");
}

#[test]
fn eval_v2_only_policy_requires_bridge_and_no_overrides() {
    assert!(eval_v2_only_tool_policy_applies(&[], true, true));
    assert!(!eval_v2_only_tool_policy_applies(&[], false, true));
    assert!(!eval_v2_only_tool_policy_applies(&[], true, false));
    assert!(!eval_v2_only_tool_policy_applies(&args(&["--tools=read"]), true, true));
    assert!(!eval_v2_only_tool_policy_applies(&args(&["-nt"]), true, true));
    // Disabling only the builtins does not cancel the Eval-only policy.
    assert!(eval_v2_only_tool_policy_applies(&args(&["--no-builtin-tools"]), true, true));
}

#[test]
fn normal_f2_policy_yields_to_eval_v2_only() {
    assert!(normal_f2_tool_policy_applies(&[], true, false));
    assert!(!normal_f2_tool_policy_applies(&[], true, true));
    assert!(!normal_f2_tool_policy_applies(&[], false, false));
    assert!(!normal_f2_tool_policy_applies(&args(&["-nbt"]), true, false));
}
