use pi_grok::json::Json;
use pi_grok::tool_projection::{
    bash_tool_output, edit_diff_content, normalize_tool_raw_input, normalize_tool_raw_output,
    split_lines, split_pi_grep_match_line, tool_content, tool_kind, ToolContent, ToolKind,
};

fn from_value(v: &serde_json::Value) -> Json {
    match v {
        serde_json::Value::Null => Json::Null,
        serde_json::Value::Bool(b) => Json::Bool(*b),
        serde_json::Value::Number(n) => {
            if let Some(i) = n.as_i64() {
                Json::Int(i as i128)
            } else if let Some(u) = n.as_u64() {
                Json::Int(u as i128)
            } else {
                Json::Float(n.to_string())
            }
        }
        serde_json::Value::String(t) => Json::Str(t.clone()),
        serde_json::Value::Array(items) => Json::Array(items.iter().map(from_value).collect()),
        serde_json::Value::Object(map) => Json::Object(
            map.iter().map(|(k, v)| (k.clone(), from_value(v))).collect(),
        ),
    }
}

fn j(text: &str) -> Json {
    from_value(&serde_json::from_str(text).expect("valid JSON"))
}

fn s(text: &str) -> Json {
    Json::Str(text.to_string())
}

fn obj(members: &[(&str, Json)]) -> Json {
    Json::Object(
        members
            .iter()
            .map(|(k, v)| (k.to_string(), clone_json(v)))
            .collect(),
    )
}

fn clone_json(v: &Json) -> Json {
    match v {
        Json::Null => Json::Null,
        Json::Bool(b) => Json::Bool(*b),
        Json::Int(n) => Json::Int(*n),
        Json::Float(f) => Json::Float(f.clone()),
        Json::Str(t) => Json::Str(t.clone()),
        Json::Array(items) => Json::Array(items.iter().map(clone_json).collect()),
        Json::Object(fields) => Json::Object(
            fields
                .iter()
                .map(|(k, v)| (k.clone(), clone_json(v)))
                .collect(),
        ),
    }
}

#[test]
fn pi_bash_task_name_aliases_to_description_for_pager() {
    let args = normalize_tool_raw_input(
        "bash",
        Some(obj(&[
            ("command", s("cargo test -p pi-grok-adapter -- --nocapture")),
            ("task_name", s("运行 adapter 测试")),
        ])),
    )
    .unwrap();
    assert_eq!(
        args.get("description").and_then(Json::as_str),
        Some("运行 adapter 测试"),
        "Pager Execute cards read raw_input.description"
    );
    // The given field stays too, for debuggability and round-trips.
    assert_eq!(
        args.get("task_name").and_then(Json::as_str),
        Some("运行 adapter 测试")
    );

    // Existing description wins over task_name.
    let preferred = normalize_tool_raw_input(
        "bash",
        Some(obj(&[
            ("command", s("true")),
            ("description", s("already set")),
            ("task_name", s("ignored")),
        ])),
    )
    .unwrap();
    assert_eq!(
        preferred.get("description").and_then(Json::as_str),
        Some("already set")
    );
}

#[test]
fn eval_raw_input_marks_dedicated_variant_and_preserves_fields() {
    let args = normalize_tool_raw_input(
        "eval",
        Some(obj(&[
            ("language", s("py")),
            ("code", s("x = 40\nx + 2")),
            ("title", s("compute")),
        ])),
    )
    .unwrap();
    assert_eq!(args.get("variant").and_then(Json::as_str), Some("Eval"));
    assert_eq!(args.get("language").and_then(Json::as_str), Some("py"));
    assert_eq!(
        args.get("code").and_then(Json::as_str),
        Some("x = 40\nx + 2")
    );
    assert_eq!(args.get("title").and_then(Json::as_str), Some("compute"));
    assert!(args.get("command").is_none());
    assert!(args.get("description").is_none());
}

#[test]
fn pi_write_raw_input_gets_write_variant() {
    let args = normalize_tool_raw_input(
        "write",
        Some(obj(&[("path", s("a.rs")), ("content", s("x"))])),
    )
    .unwrap();
    assert_eq!(args.get("variant").and_then(Json::as_str), Some("Write"));
}

#[test]
fn fabric_exec_raw_input_passes_through_for_other_card() {
    let args = normalize_tool_raw_input(
        "fabric_exec",
        Some(obj(&[
            ("code", s("return 1;")),
            ("display", obj(&[("name", s("scan"))])),
        ])),
    )
    .unwrap();
    // Must not rewrite to UseTool — F2 show_other_tool_args owns Other-card args.
    assert!(args.get("variant").is_none());
    assert_eq!(args.get("code").and_then(Json::as_str), Some("return 1;"));
}

#[test]
fn pi_ls_raw_input_gets_target_directory() {
    let args = normalize_tool_raw_input("ls", Some(obj(&[("path", s("src"))]))).unwrap();
    assert_eq!(
        args.get("target_directory").and_then(Json::as_str),
        Some("src")
    );
}

#[test]
fn pi_grep_match_line_parser() {
    let (path, line, content) =
        split_pi_grep_match_line("crates/foo/bar.rs:42: let x = 1;").unwrap();
    assert_eq!(path, "crates/foo/bar.rs");
    assert_eq!(line, 42);
    assert_eq!(content, "let x = 1;");
    assert!(split_pi_grep_match_line("crates/foo/bar.rs-42- context").is_none());
}

#[test]
fn write_like_tools_do_not_get_write_variant_or_bash_description() {
    let todo = normalize_tool_raw_input(
        "TodoWrite",
        Some(obj(&[("todo", s("x")), ("task_name", s("label"))])),
    )
    .unwrap();
    assert!(
        todo.get("variant").is_none(),
        "TodoWrite must not be marked as a Write card"
    );
    assert!(
        todo.get("description").is_none(),
        "TodoWrite must not be aliased to a bash description"
    );

    let fabric = normalize_tool_raw_input(
        "fabric_exec",
        Some(obj(&[("code", s("return 1;")), ("task_name", s("scan"))])),
    )
    .unwrap();
    assert!(
        fabric.get("description").is_none(),
        "fabric_exec must not be aliased to a bash description"
    );
}

#[test]
fn grep_line_keeps_windows_drive_colon_in_path() {
    let (path, line, content) = split_pi_grep_match_line("C:\\src\\a.rs:7:x").unwrap();
    assert_eq!(path, "C:\\src\\a.rs");
    assert_eq!(line, 7);
    assert_eq!(content, "x");
}

#[test]
fn grep_line_rejects_line_numbers_past_u64() {
    assert!(split_pi_grep_match_line("a:99999999999999999999: x").is_none());
    assert_eq!(
        split_pi_grep_match_line("a:18446744073709551615: x").map(|(_, n, _)| n),
        Some(u64::MAX)
    );
}

#[test]
fn non_object_and_missing_raw_input_pass_through() {
    assert!(normalize_tool_raw_input("bash", None).is_none());
    assert_eq!(normalize_tool_raw_input("eval", Some(s("x"))), Some(s("x")));
}

#[test]
fn eval_variant_replaces_an_existing_variant_in_place() {
    let args = normalize_tool_raw_input(
        "eval",
        Some(obj(&[("variant", s("Old")), ("code", s("1"))])),
    )
    .unwrap();
    match args {
        Json::Object(fields) => {
            assert_eq!(fields.len(), 2);
            assert_eq!(fields[0].0, "variant");
            assert_eq!(fields[0].1, s("Eval"));
        }
        _ => panic!("object expected"),
    }
}

#[test]
fn pi_read_maps_to_native_read_card() {
    assert_eq!(tool_kind("read"), ToolKind::Read);
    assert_eq!(tool_kind("use_skill"), ToolKind::Other);
}

#[test]
fn pi_read_result_projects_native_readfile_raw_output() {
    let raw = normalize_tool_raw_output(
        "read",
        Some(&j(r#"{ "path": "src/lib.rs", "offset": 10, "limit": 20 }"#)),
        &j(r#"{
            "content": [{ "type": "text", "text": "fn main() {}\n// end\n\n[Showing lines 10-11 of 42. Use offset=12 to continue.]" }]
        }"#),
        false,
    );
    assert_eq!(raw.get("type").and_then(Json::as_str), Some("ReadFile"));
    let file = raw.get("FileContent").expect("FileContent variant");
    assert_eq!(
        file.get("absolute_path").and_then(Json::as_str),
        Some("src/lib.rs")
    );
    assert_eq!(file.get("offset").and_then(Json::as_u64), Some(9));
    assert_eq!(file.get("limit").and_then(Json::as_u64), Some(20));
    assert_eq!(file.get("total_lines").and_then(Json::as_u64), Some(42));
    assert!(file
        .get("raw_output")
        .and_then(Json::as_str)
        .is_some_and(|text| text.contains("fn main()")));
}

#[test]
fn pi_bash_result_projects_native_bash_raw_output() {
    let raw = normalize_tool_raw_output(
        "bash",
        Some(&j(r#"{ "command": "ls -la", "task_name": "列出目录" }"#)),
        &j(r#"{
            "content": [{ "type": "text", "text": "total 48\nREADME.md\n" }],
            "details": { "fullOutputPath": null }
        }"#),
        false,
    );
    assert_eq!(raw.get("type").and_then(Json::as_str), Some("Bash"));
    assert_eq!(raw.get("command").and_then(Json::as_str), Some("ls -la"));
    assert_eq!(
        raw.get("description").and_then(Json::as_str),
        Some("列出目录")
    );
    assert_eq!(raw.get("exit_code"), Some(&Json::Int(0)));
    let output = raw
        .get("output_for_prompt")
        .and_then(Json::as_str)
        .unwrap_or_default();
    assert!(output.contains("README.md"));

    let direct = bash_tool_output(
        "echo hi",
        Some("print greeting"),
        &j(r#"{ "output": "hi\n", "exitCode": 0, "truncated": false }"#),
        false,
    );
    assert_eq!(direct.get("type").and_then(Json::as_str), Some("Bash"));
    assert_eq!(
        direct.get("output_for_prompt").and_then(Json::as_str),
        Some("hi\n")
    );
    assert_eq!(
        direct.get("description").and_then(Json::as_str),
        Some("print greeting")
    );
}

#[test]
fn pi_builtin_tool_kinds() {
    assert_eq!(tool_kind("read"), ToolKind::Read);
    assert_eq!(tool_kind("bash"), ToolKind::Execute);
    assert_eq!(tool_kind("edit"), ToolKind::Edit);
    assert_eq!(tool_kind("write"), ToolKind::Edit);
    assert_eq!(tool_kind("grep"), ToolKind::Search);
    assert_eq!(tool_kind("find"), ToolKind::Search);
    assert_eq!(tool_kind("ls"), ToolKind::Other);
    assert_eq!(tool_kind("eval"), ToolKind::Other);
}

#[test]
fn eval_raw_output_stays_native_instead_of_projecting_bash() {
    let result = j(r#"{"content": [{"type": "text", "text": "42"}]}"#);
    let raw = normalize_tool_raw_output(
        "eval",
        Some(&j(r#"{"language": "py", "code": "x = 40\nx + 2"}"#)),
        &result,
        false,
    );
    assert_eq!(raw, result);
}

#[test]
fn pi_grep_result_projects_native_grepsearch() {
    let raw = normalize_tool_raw_output(
        "grep",
        Some(&j(r#"{ "pattern": "fn main", "path": "." }"#)),
        &j(r#"{
            "content": [{
                "type": "text",
                "text": "src/main.rs:10: fn main() {\nsrc/lib.rs:3: fn main_helper() {\n"
            }]
        }"#),
        false,
    );
    assert_eq!(raw.get("type").and_then(Json::as_str), Some("GrepSearch"));
    assert_eq!(raw.get("match_count").and_then(Json::as_u64), Some(2));
    let files = raw.get("file_matches").and_then(Json::as_array).unwrap();
    assert_eq!(files.len(), 2);
    assert_eq!(
        files[0].get("path").and_then(Json::as_str),
        Some("src/main.rs")
    );
    assert_eq!(
        files[0].get("matches").and_then(Json::as_array).unwrap()[0]
            .get("line_number")
            .and_then(Json::as_u64),
        Some(10)
    );
}

#[test]
fn pi_find_result_projects_files_with_matches() {
    let raw = normalize_tool_raw_output(
        "find",
        Some(&j(r#"{ "pattern": "*.rs" }"#)),
        &j(r#"{
            "content": [{ "type": "text", "text": "src/a.rs\nsrc/b.rs\n" }]
        }"#),
        false,
    );
    assert_eq!(raw.get("type").and_then(Json::as_str), Some("GrepSearch"));
    assert_eq!(raw.get("match_count").and_then(Json::as_u64), Some(2));
}

#[test]
fn pi_ls_result_projects_native_listdir() {
    let raw = normalize_tool_raw_output(
        "ls",
        Some(&j(r#"{ "path": "src" }"#)),
        &j(r#"{
            "content": [{ "type": "text", "text": "main.rs\nlib.rs\n" }]
        }"#),
        false,
    );
    assert_eq!(raw.get("type").and_then(Json::as_str), Some("ListDir"));
    let content = raw.get("Content").expect("ListDir Content");
    assert_eq!(
        content.get("absolute_root_path").and_then(Json::as_str),
        Some("src")
    );
    assert!(content
        .get("content")
        .and_then(Json::as_str)
        .is_some_and(|t| t.contains("main.rs")));
}

#[test]
fn pi_rtk_grep_output_projects_matches_under_file_header() {
    let raw = normalize_tool_raw_output(
        "grep",
        Some(&j(r#"{ "pattern": "pi-grok-adapter", "path": "Cargo.toml" }"#)),
        &j(r#"{
            "content": [{
                "type": "text",
                "text": "1 matches in 1 files:\n\n> Cargo.toml (1 matches):\n    6: \"crates/codegen/pi-grok-adapter\",\n"
            }]
        }"#),
        false,
    );
    assert_eq!(raw.get("match_count").and_then(Json::as_u64), Some(1));
    let file = &raw.get("file_matches").and_then(Json::as_array).unwrap()[0];
    assert_eq!(file.get("path").and_then(Json::as_str), Some("Cargo.toml"));
    assert_eq!(
        file.get("matches").and_then(Json::as_array).unwrap()[0]
            .get("line_number")
            .and_then(Json::as_u64),
        Some(6)
    );
}

#[test]
fn search_like_tools_are_not_misclassified_as_grep() {
    for name in [
        "web_search",
        "memory_search",
        "session_search",
        "codebase_search",
        "x_search",
        "grafana__search",
        "pi/session/search",
    ] {
        assert_eq!(
            tool_kind(name),
            ToolKind::Other,
            "{name} must stay Other, not be classed as Search"
        );
    }
}

#[test]
fn search_like_tool_output_is_not_grep_parsed() {
    let result = j(r#"{
        "content": [{ "type": "text", "text": "results for query\n- https://example.com" }]
    }"#);
    let raw = normalize_tool_raw_output(
        "web_search",
        Some(&j(r#"{ "query": "rust" }"#)),
        &result,
        false,
    );
    assert_eq!(
        raw, result,
        "web_search must pass through unchanged, not be rewritten to GrepSearch"
    );
    assert_ne!(raw.get("type").and_then(Json::as_str), Some("GrepSearch"));
}

#[test]
fn write_like_and_exec_like_tools_stay_other() {
    assert_eq!(tool_kind("TodoWrite"), ToolKind::Other);
    assert_eq!(tool_kind("fabric_exec"), ToolKind::Other);
}

#[test]
fn lines_split_like_str_lines() {
    assert_eq!(split_lines(""), Vec::<String>::new());
    assert_eq!(split_lines("a\n"), vec!["a".to_owned()]);
    assert_eq!(
        split_lines("a\n\nb"),
        vec!["a".to_owned(), String::new(), "b".to_owned()]
    );
}

#[test]
fn grep_lines_of_one_file_are_grouped_and_context_lines_skipped() {
    let raw = normalize_tool_raw_output(
        "grep",
        None,
        &j(r#"{"content": [{"type": "text", "text": "a.rs:1: x\na.rs-2- ctx\na.rs:3: y\nb.rs:4: z"}]}"#),
        false,
    );
    assert_eq!(raw.get("match_count").and_then(Json::as_u64), Some(3));
    let files = raw.get("file_matches").and_then(Json::as_array).unwrap();
    assert_eq!(files.len(), 2);
    let first = files[0].get("matches").and_then(Json::as_array).unwrap();
    assert_eq!(first.len(), 2);
    assert_eq!(first[1].get("content").and_then(Json::as_str), Some("y"));
}

#[test]
fn read_without_notice_or_offset_starts_at_zero() {
    let raw = normalize_tool_raw_output(
        "read",
        Some(&j(r#"{"path": "a.txt"}"#)),
        &j(r#"{"content": [{"type": "text", "text": "one\ntwo"}]}"#),
        false,
    );
    let file = raw.get("FileContent").unwrap();
    assert_eq!(file.get("offset"), Some(&Json::Int(0)));
    assert_eq!(file.get("limit"), Some(&Json::Null));
    assert_eq!(file.get("total_lines"), Some(&Json::Null));
}

#[test]
fn failed_results_keep_their_shape_but_bash_reports_exit_code() {
    let result = j(r#"{"content": [{"type": "text", "text": "boom"}]}"#);
    let raw = normalize_tool_raw_output("ls", None, &result, true);
    assert_eq!(raw, result);
    let raw = normalize_tool_raw_output("bash", Some(&j(r#"{"command": "false"}"#)), &result, true);
    assert_eq!(raw.get("exit_code"), Some(&Json::Int(1)));
    assert_eq!(raw.get("output_for_prompt").and_then(Json::as_str), Some("boom"));
    assert_eq!(raw.get("description"), Some(&Json::Null));
}

#[test]
fn tool_content_is_the_result_text() {
    assert_eq!(
        tool_content(&j(r#"{"content": [{"type": "text", "text": "a"}, {"type": "text", "text": "b"}]}"#)),
        vec![ToolContent::Text("a\nb".to_owned())]
    );
    assert_eq!(tool_content(&j(r#"{"content": []}"#)), Vec::<ToolContent>::new());
}

#[test]
fn pi_edit_and_write_inputs_produce_native_diff_content() {
    let edit = edit_diff_content(
        "edit",
        Some(&j(r#"{
            "path": "README.md",
            "oldText": "before\n",
            "newText": "after\n"
        }"#)),
        None,
    )
    .expect("edit input must become a diff");
    let diff = &edit[0];
    assert_eq!(diff.path, "README.md");
    assert_eq!(diff.old_text.as_deref(), Some("before\n"));
    assert_eq!(diff.new_text, "after\n");

    let current_edit = edit_diff_content(
        "edit",
        Some(&j(r#"{
            "path": "README.md",
            "edits": [
                { "oldText": "before\n", "newText": "after\n" },
                { "oldText": "first\n", "newText": "second\n" }
            ]
        }"#)),
        None,
    )
    .expect("current edit input must become diffs");
    assert_eq!(current_edit.len(), 2);

    let write = edit_diff_content(
        "write",
        Some(&j(r#"{ "path": "README.md", "content": "new file\n" }"#)),
        None,
    )
    .expect("write input must become a diff");
    let diff = &write[0];
    assert_eq!(diff.old_text, None);
    assert_eq!(diff.new_text, "new file\n");
}

#[test]
fn pi_multiregion_edit_projects_patch_line_numbers() {
    let content = edit_diff_content(
        "edit",
        Some(&j(r#"{
            "path": "src/example.rs",
            "edits": [
                { "oldText": "before alpha", "newText": "after alpha" },
                { "oldText": "before beta", "newText": "after beta" }
            ]
        }"#)),
        Some(&j(r#"{
            "details": {
                "patch": "--- src/example.rs\n+++ src/example.rs\n@@ -7,2 +7,2 @@\n after alpha\n-before alpha\n+after alpha\n@@ -31,1 +31,1 @@\n-before beta\n+after beta\n"
            }
        }"#)),
    )
    .expect("edit input must become diffs");
    let lines = content.iter().map(|diff| diff.new_line).collect::<Vec<_>>();
    assert_eq!(lines, vec![Some(8), Some(31)]);
}

#[test]
fn pi_history_edit_projects_direct_patch_line_number() {
    let content = edit_diff_content(
        "edit",
        Some(&j(r#"{
            "path": "src/example.rs",
            "oldText": "before alpha",
            "newText": "after alpha"
        }"#)),
        Some(&j(r#"{
            "patch": "--- src/example.rs\n+++ src/example.rs\n@@ -42,1 +42,1 @@\n-before alpha\n+after alpha\n"
        }"#)),
    )
    .expect("edit input must become a diff");
    assert_eq!(content[0].new_line, Some(42));
}

#[test]
fn pi_edit_without_matching_patch_keeps_line_metadata_empty() {
    let content = edit_diff_content(
        "edit",
        Some(&j(r#"{
            "path": "src/example.rs",
            "oldText": "before alpha",
            "newText": "after alpha"
        }"#)),
        Some(&j(r#"{
            "details": {
                "patch": "--- src/example.rs\n+++ src/example.rs\n@@ -7,1 +7,1 @@\n-before beta\n+after beta\n"
            }
        }"#)),
    )
    .expect("edit input must become a diff");
    assert!(content[0].new_line.is_none());
}

#[test]
fn other_tools_and_pathless_calls_have_no_diff() {
    assert!(edit_diff_content("read", Some(&j(r#"{"path": "a"}"#)), None).is_none());
    assert!(edit_diff_content("edit", Some(&j(r#"{"oldText": "a", "newText": "b"}"#)), None).is_none());
    assert!(edit_diff_content("edit", Some(&j(r#"{"path": "a", "edits": []}"#)), None).is_none());
    assert!(edit_diff_content("edit", None, None).is_none());
}
