use pi_grok::pi_host::{
    both_install_commands, classify_pi_host, host_command, install_command_for_host,
    is_default_pi_command, is_windows_batch_shim, looks_like_js_cli, node_program,
    parse_pi_version, program_looks_like_path, resolve_pi_host, version_probe_budget,
    HostResolution, PiHostCheck, INSTALL_UNIX, INSTALL_WINDOWS, MIN_PI_VERSION,
};

fn text(v: &pi_grok::pi_host::PiVersion) -> String {
    v.to_text()
}

#[test]
fn parses_plain_semver() {
    assert_eq!(text(&parse_pi_version("0.84.3").unwrap()), "0.84.3");
}

#[test]
fn parses_prefixed_output() {
    assert_eq!(text(&parse_pi_version("pi 0.84.3\n").unwrap()), "0.84.3");
    assert_eq!(
        text(&parse_pi_version("@earendil-works/pi-coding-agent/0.84.3").unwrap()),
        "0.84.3"
    );
}

#[test]
fn min_version_constant_is_valid() {
    let min = parse_pi_version(MIN_PI_VERSION).unwrap();
    assert_eq!(text(&min), MIN_PI_VERSION);
    assert!(min.meets_minimum());
}

#[test]
fn too_old_detected() {
    let v = parse_pi_version("0.79.0").unwrap();
    assert!(!v.meets_minimum());
}

#[test]
fn install_hint_is_platform_specific() {
    let hint = install_command_for_host(true);
    assert!(hint.contains("powershell"));
    let hint = install_command_for_host(false);
    assert!(hint.contains("curl") && hint.contains("pi.dev/install.sh"));
}

#[test]
fn batch_shim_detection() {
    assert!(is_windows_batch_shim(r"C:\Users\x\pi.cmd"));
    assert!(is_windows_batch_shim(r"C:\Users\x\pi.CMD"));
    assert!(is_windows_batch_shim("pi.bat"));
    assert!(!is_windows_batch_shim("pi"));
    assert!(!is_windows_batch_shim("pi.exe"));
    assert!(!is_windows_batch_shim("cli.js"));
}

#[test]
fn js_cli_detection() {
    assert!(looks_like_js_cli("cli.js"));
    assert!(looks_like_js_cli(r"C:\tools\rpc-entry.mjs"));
    assert!(!looks_like_js_cli("pi.cmd"));
}

#[test]
fn resolve_keeps_non_empty_default() {
    match resolve_pi_host("pi", false) {
        HostResolution::AsGiven(resolved) => assert!(!resolved.trim().is_empty()),
        other => panic!("unexpected resolution {other:?}"),
    }
}

#[test]
fn windows_resolution_searches_trimmed_names() {
    assert_eq!(resolve_pi_host("  pi ", true), HostResolution::SearchWindows("pi".into()));
    assert_eq!(resolve_pi_host("   ", true), HostResolution::AsGiven("   ".into()));
    assert_eq!(resolve_pi_host(" pi ", false), HostResolution::AsGiven(" pi ".into()));
    assert!(program_looks_like_path(r"C:\tools\pi"));
    assert!(program_looks_like_path("./pi"));
    assert!(!program_looks_like_path("pi"));
    assert!(is_default_pi_command("PI"));
    assert!(!is_default_pi_command("pi.cmd"));
}

#[test]
fn version_tokens_and_prefixes() {
    assert_eq!(text(&parse_pi_version("v1.2.3").unwrap()), "1.2.3");
    assert_eq!(text(&parse_pi_version("pi version 0.85.0, build").unwrap()), "0.85.0");
    assert_eq!(text(&parse_pi_version("0.90.1-beta.1 extra").unwrap()), "0.90.1-beta.1");
    assert_eq!(text(&parse_pi_version("0.84.3xyz").unwrap()), "0.84.3");
    assert!(parse_pi_version("no version here").is_none());
    assert!(parse_pi_version("").is_none());
}

#[test]
fn minimum_orders_pre_releases_below_the_release() {
    assert!(!parse_pi_version("0.84.3-rc.1").unwrap().meets_minimum());
    assert!(parse_pi_version("0.84.3+build").unwrap().meets_minimum());
    assert!(parse_pi_version("0.84.4-rc.1").unwrap().meets_minimum());
    assert!(parse_pi_version("1.0.0").unwrap().meets_minimum());
    assert!(!parse_pi_version("0.83.99").unwrap().meets_minimum());
}

#[test]
fn host_checks_classify_probe_outcomes() {
    match classify_pi_host("pi".into(), Ok("pi 0.84.3\n".into())) {
        PiHostCheck::Supported { version, program } => {
            assert_eq!(text(&version), "0.84.3");
            assert_eq!(program, "pi");
        }
        other => panic!("unexpected {other:?}"),
    }
    assert!(matches!(
        classify_pi_host("pi".into(), Ok("0.79.0".into())),
        PiHostCheck::TooOld { .. }
    ));
    assert_eq!(
        classify_pi_host("pi".into(), Ok("  garbage \n".into())),
        PiHostCheck::Unparseable { program: "pi".into(), raw: "garbage".into() }
    );
    assert_eq!(
        classify_pi_host("pi".into(), Err("spawn failed".into())),
        PiHostCheck::Missing { program: "pi".into(), detail: "spawn failed".into() }
    );
}

#[test]
fn host_commands_route_scripts_and_shims() {
    let args = vec!["--version".to_string()];
    let js = host_command("cli.js", &args, false);
    assert_eq!(js.program, "node");
    assert_eq!(js.args, vec!["cli.js".to_string(), "--version".to_string()]);
    assert_eq!(host_command("cli.mjs", &args, true).program, node_program(true));
    let shim = host_command("pi.cmd", &args, true);
    assert_eq!(shim.program, "cmd.exe");
    assert_eq!(shim.args, vec!["/D", "/C", "pi.cmd", "--version"]);
    let plain = host_command("pi", &args, false);
    assert_eq!(plain.program, "pi");
    assert_eq!(plain.args, args);
    assert_eq!(both_install_commands(), (INSTALL_UNIX, INSTALL_WINDOWS));
    assert_eq!(version_probe_budget(), 3);
}

#[test]
fn version_text_carries_pre_release_and_build() {
    let v = parse_pi_version("pi v1.2.3-beta.1+abc").unwrap();
    assert_eq!(v.to_text(), "1.2.3-beta.1+abc");
    assert!(!parse_pi_version("0.84.3-rc.1").unwrap().meets_minimum());
}
