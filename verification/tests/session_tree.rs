use pi_grok::json::Json;
use pi_grok::session_tree::{
    fork_outcome, fork_request, navigate_tree_args, tree_label_args, NAVIGATE_BUSY_MESSAGE,
};

#[test]
fn navigate_arguments_carry_summary_and_instructions() {
    assert_eq!(navigate_tree_args(" e1 ", false, None, false).unwrap(), "e1");
    assert_eq!(
        navigate_tree_args("e1", true, Some("  keep it short "), false).unwrap(),
        "e1 --summarize --instructions keep it short"
    );
    assert_eq!(navigate_tree_args("e1", false, Some("   "), false).unwrap(), "e1");
    assert_eq!(
        navigate_tree_args("  ", false, None, true).unwrap_err().message(),
        "tree entry id is empty"
    );
    assert_eq!(
        navigate_tree_args("e1", false, None, true).unwrap_err().message(),
        NAVIGATE_BUSY_MESSAGE
    );
}

#[test]
fn labels_are_set_or_cleared() {
    assert_eq!(tree_label_args(" e2", Some(" milestone ")).unwrap(), "e2 milestone");
    assert_eq!(tree_label_args("e2", Some("  ")).unwrap(), "e2 --clear");
    assert_eq!(tree_label_args("e2", None).unwrap(), "e2 --clear");
    assert_eq!(tree_label_args("", None).unwrap_err().message(), "tree entry id is empty");
}

#[test]
fn fork_requests_and_outcomes() {
    let request = fork_request(" u-3 ").unwrap();
    assert_eq!(request.get("type").and_then(Json::as_str), Some("fork"));
    assert_eq!(request.get("entryId").and_then(Json::as_str), Some("u-3"));
    assert_eq!(fork_request(" ").unwrap_err().message(), "entryId is empty");
    let answered = Json::Object(vec![
        ("cancelled".into(), Json::Bool(true)),
        ("text".into(), Json::Str("hello".into())),
    ]);
    assert_eq!(fork_outcome(&answered), (true, Some("hello".to_string())));
    assert_eq!(fork_outcome(&Json::Object(Vec::new())), (false, None));
}
