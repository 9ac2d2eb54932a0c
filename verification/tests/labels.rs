use edit_prediction::json::Json;
use edit_prediction::labels::{
    cursor_lsp_suggested_items, cursor_lsp_suggestion_label, lsp_suggested_labels, Completion,
    LSP_SUGGESTED_ITEMS_TIMEOUT_MS, MAX_LSP_SUGGESTED_ITEMS,
};

fn suggestions(labels: &[&str]) -> Json {
    Json::Object(vec![(
        "suggestions".to_string(),
        Json::Array(
            labels
                .iter()
                .map(|label| {
                    Json::Object(vec![("label".to_string(), Json::Str(label.to_string()))])
                })
                .collect(),
        ),
    )])
}

#[test]
fn test_cursor_lsp_suggested_items_match_cursor_proto_shape() {
    assert_eq!(
        cursor_lsp_suggested_items(&[
            "nullthrows".to_string(),
            " ".to_string(),
            "useMemo".to_string()
        ]),
        suggestions(&["nullthrows", "useMemo"])
    );
}

fn completion(lsp_label: Option<&str>, label_text: &str) -> Completion {
    Completion {
        lsp_label: lsp_label.map(|label| label.to_string()),
        label_text: label_text.to_string(),
    }
}

#[test]
fn labels_of_completions() {
    assert_eq!(
        cursor_lsp_suggestion_label(&completion(Some(" a "), "b")),
        Some("a".to_string())
    );
    assert_eq!(cursor_lsp_suggestion_label(&completion(Some(" "), "b")), None);
    assert_eq!(
        cursor_lsp_suggestion_label(&completion(None, " b\n")),
        Some("b".to_string())
    );
    assert_eq!(cursor_lsp_suggestion_label(&completion(None, "\t")), None);
}

#[test]
fn labels_are_distinct_and_limited() {
    let mut completions = vec![completion(None, "x"), completion(Some("x "), ""), completion(None, "")];
    for i in 0..100 {
        completions.push(completion(Some(&format!(" l{} ", i)), ""));
    }
    let labels = lsp_suggested_labels(&completions);
    assert_eq!(labels.len(), MAX_LSP_SUGGESTED_ITEMS);
    assert_eq!(labels.len(), 40);
    assert_eq!(labels[0], "x");
    assert_eq!(labels[1], "l0");
    assert_eq!(labels[39], "l38");
    let sent: Vec<&str> = labels.iter().map(|label| label.as_str()).collect();
    assert_eq!(cursor_lsp_suggested_items(&labels), suggestions(&sent));
    assert_eq!(LSP_SUGGESTED_ITEMS_TIMEOUT_MS, 120);
}

#[test]
fn as_many_labels_as_the_limit_are_all_sent() {
    let completions: Vec<Completion> =
        (0..40).map(|i| completion(None, &format!("l{}", i))).collect();
    let labels = lsp_suggested_labels(&completions);
    assert_eq!(labels.len(), 40);
    for completion in &completions {
        assert!(labels.contains(&cursor_lsp_suggestion_label(completion).unwrap()));
    }
}
