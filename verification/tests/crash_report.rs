use pi_grok::crash_report::{
    crash_report_body, crash_report_identity, reports_on_key, telemetry_curl_args,
    telemetry_endpoint, telemetry_token, DEFAULT_EXT_TELEMETRY_URL,
};

fn serde_body(ext_name: &str, package_dir: &str, kind: &str) -> String {
    let mut map = serde_json::Map::new();
    map.insert("ext_name".into(), serde_json::Value::String(ext_name.into()));
    map.insert("package_dir".into(), serde_json::Value::String(package_dir.into()));
    map.insert("kind".into(), serde_json::Value::String(kind.into()));
    map.insert("client".into(), serde_json::Value::String("grok-pi".into()));
    serde_json::Value::Object(map).to_string()
}

#[test]
fn report_body_matches_serde_json() {
    for (name, dir, kind) in [
        ("todo", "todo", "extension"),
        ("we\"ird\\", "a\nb\tc\r", "combo"),
        ("ctl\u{1}\u{8}\u{c}\u{1f}", "ünïcode ✓", "extension"),
    ] {
        assert_eq!(crash_report_body(name, dir, kind), serde_body(name, dir, kind));
    }
}

#[test]
fn identity_hides_paths_and_combos() {
    assert_eq!(
        crash_report_identity("combo", "combo"),
        ("combo".to_string(), "combo".to_string())
    );
    assert_eq!(
        crash_report_identity("/home/u/.npm/node_modules/@scope/pkg/dist/index.js", "extension"),
        ("pkg".to_string(), "@scope/pkg".to_string())
    );
}

#[test]
fn only_n_declines_a_report() {
    assert!(!reports_on_key(Some('n')));
    assert!(!reports_on_key(Some('N')));
    assert!(reports_on_key(Some('y')));
    assert!(reports_on_key(Some('\u{1b}')));
    assert!(reports_on_key(None));
}

#[test]
fn endpoint_prefers_configured_urls() {
    assert_eq!(
        telemetry_endpoint(Some("https://a.example//"), Some("https://b.example")),
        "https://a.example/v1/report"
    );
    assert_eq!(
        telemetry_endpoint(None, Some("https://b.example/")),
        "https://b.example/v1/report"
    );
    assert_eq!(
        telemetry_endpoint(None, None),
        format!("{DEFAULT_EXT_TELEMETRY_URL}/v1/report")
    );
}

#[test]
fn token_comes_from_env_then_file() {
    assert_eq!(telemetry_token(Some(" t "), Some("f")), Some(" t ".to_string()));
    assert_eq!(telemetry_token(Some(""), Some("  f \n")), Some("f".to_string()));
    assert_eq!(telemetry_token(None, Some("   ")), None);
    assert_eq!(telemetry_token(None, None), None);
}

#[test]
fn curl_arguments_post_the_body_with_a_bearer_token() {
    let args = telemetry_curl_args("https://x/v1/report", "tok", "{}");
    assert_eq!(
        args,
        vec![
            "-sS",
            "-m",
            "5",
            "-X",
            "POST",
            "https://x/v1/report",
            "-H",
            "content-type: application/json",
            "-H",
            "authorization: Bearer tok",
            "-d",
            "{}",
        ]
    );
}

#[test]
fn report_body_lists_members_by_key() {
    assert_eq!(
        crash_report_body("a", "b", "c"),
        r#"{"client":"grok-pi","ext_name":"a","kind":"c","package_dir":"b"}"#
    );
    assert_eq!(
        crash_report_body("q\"", "\u{1}", "k"),
        r#"{"client":"grok-pi","ext_name":"q\"","kind":"k","package_dir":"\u0001"}"#
    );
}
