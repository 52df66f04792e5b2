use pi_grok::json::Json;
use pi_grok::settings::{
    bash_bridge_enabled, bash_bridge_enabled_from_config, bash_control_meta_for_adapter,
    config_skill_dir, config_skill_enabled_from_config, control_dir_name, env_flag_default_off,
    env_flag_default_on, escape_json_text, eval_v2_language_from_config,
    eval_v2_only_enabled_from_config, eval_version_from_config, host_catalog_json,
    rollback_enabled_from_config, rollback_state_root, uuid_v4_short, CONFIG_SKILL_NAME,
};

fn from_toml(value: &toml::Value) -> Json {
    match value {
        toml::Value::String(s) => Json::Str(s.clone()),
        toml::Value::Integer(n) => Json::Int(*n as i128),
        toml::Value::Float(f) => Json::Float(f.to_string()),
        toml::Value::Boolean(b) => Json::Bool(*b),
        toml::Value::Datetime(d) => Json::Str(d.to_string()),
        toml::Value::Array(items) => Json::Array(items.iter().map(from_toml).collect()),
        toml::Value::Table(table) => Json::Object(
            table
                .iter()
                .map(|(k, v)| (k.clone(), from_toml(v)))
                .collect(),
        ),
    }
}

fn config(text: &str) -> Json {
    let value: toml::Value = toml::from_str(text).expect("parse config");
    from_toml(&value)
}

#[test]
fn config_skill_enabled_from_config_defaults_on_and_honors_false() {
    assert!(config_skill_enabled_from_config(None));
    let enabled = config(
        "[ui]
pi_config_skill = true
",
    );
    assert!(config_skill_enabled_from_config(Some(&enabled)));
    let disabled = config(
        "[ui]
pi_config_skill = false
",
    );
    assert!(!config_skill_enabled_from_config(Some(&disabled)));
}

#[test]
fn env_flags_follow_their_defaults() {
    assert!(env_flag_default_on(None));
    assert!(env_flag_default_on(Some("1")));
    assert!(env_flag_default_on(Some("maybe")));
    assert!(!env_flag_default_on(Some(" OFF ")));
    assert!(!env_flag_default_on(Some("False")));
    assert!(!env_flag_default_on(Some("0")));
    assert!(!env_flag_default_off(None));
    assert!(!env_flag_default_off(Some("0")));
    assert!(env_flag_default_off(Some(" Yes")));
    assert!(env_flag_default_off(Some("TRUE")));
}

#[test]
fn bash_env_override_beats_config() {
    let off = config("[ui]\npi_bash = false\n");
    assert!(!bash_bridge_enabled_from_config(Some(&off)));
    assert!(bash_bridge_enabled_from_config(None));
    assert!(bash_bridge_enabled(Some(Some("1")), Some(&off)));
    assert!(!bash_bridge_enabled(Some(Some("off")), None));
    assert!(!bash_bridge_enabled(None, Some(&off)));
    // A non-Unicode value counts as set but unreadable: default on.
    assert!(bash_bridge_enabled(Some(None), Some(&off)));
}

#[test]
fn eval_settings_only_accept_known_values() {
    let v2 = config("[ui]\npi_eval = \"v2\"\npi_eval_v2_language = \"py\"\npi_eval_v2_only = true\n");
    assert_eq!(eval_version_from_config(Some(&v2)), "v2");
    assert_eq!(eval_v2_language_from_config(Some(&v2)), "py");
    assert!(eval_v2_only_enabled_from_config(Some(&v2)));
    let odd = config("[ui]\npi_eval = \"v3\"\npi_eval_v2_language = \"rust\"\npi_eval_v2_only = \"yes\"\n");
    assert_eq!(eval_version_from_config(Some(&odd)), "v1");
    assert_eq!(eval_v2_language_from_config(Some(&odd)), "js");
    assert!(!eval_v2_only_enabled_from_config(Some(&odd)));
    let all = config("[ui]\npi_eval_v2_language = \"all\"\n");
    assert_eq!(eval_v2_language_from_config(Some(&all)), "all");
    assert_eq!(eval_version_from_config(None), "v1");
}

#[test]
fn rollback_is_off_unless_enabled() {
    assert!(!rollback_enabled_from_config(None));
    let on = config("[ui]\npi_tree_file_rollback = true\n");
    assert!(rollback_enabled_from_config(Some(&on)));
    let other = config("[other]\npi_tree_file_rollback = true\n");
    assert!(!rollback_enabled_from_config(Some(&other)));
}

#[test]
fn bash_control_meta_needs_enabled_bash() {
    assert_eq!(
        bash_control_meta_for_adapter(true, Some("/tmp/meta.json")),
        Some("/tmp/meta.json".to_string())
    );
    assert_eq!(bash_control_meta_for_adapter(false, Some("/tmp/meta.json")), None);
    assert_eq!(bash_control_meta_for_adapter(true, None), None);
}

#[test]
fn rollback_state_root_prefers_grok_home() {
    assert_eq!(
        rollback_state_root(Some("/g"), Some("/home/u")),
        "/g/pi-file-rollback"
    );
    assert_eq!(
        rollback_state_root(None, Some("/home/u")),
        "/home/u/.grok-pi/pi-file-rollback"
    );
    assert_eq!(
        rollback_state_root(None, None),
        "/tmp/.grok-pi/pi-file-rollback"
    );
}

#[test]
fn control_dir_name_matches_format() {
    assert_eq!(uuid_v4_short(0x1a2b, 0x12345), "00001a2b2345");
    assert_eq!(
        control_dir_name(4242, 70000),
        format!("control-4242-{:08x}{:04x}", 4242u32, 70000u32 & 0xFFFF)
    );
}

#[test]
fn config_skill_dir_is_under_bundled_skills() {
    let dir = config_skill_dir("/home/u/.grok-pi");
    let expected = std::path::Path::new("/home/u/.grok-pi")
        .join("bundled")
        .join("skills")
        .join(CONFIG_SKILL_NAME);
    assert_eq!(std::path::Path::new(&dir), expected.as_path());
}

#[test]
fn host_catalog_escapes_sources() {
    let sources = vec![
        ("a\"b".to_string(), "{\"x\":1}".to_string()),
        ("c\\d".to_string(), "[]".to_string()),
    ];
    assert_eq!(
        host_catalog_json(&sources),
        "[\n{\"source\": \"a\\\"b\", \"manifest\": {\"x\":1}},\n{\"source\": \"c\\\\d\", \"manifest\": []}\n]\n"
    );
    assert_eq!(host_catalog_json(&[]), "[\n\n]\n");
    assert_eq!(escape_json_text("plain"), "plain");
}
