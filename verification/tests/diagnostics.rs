use edit_prediction::diagnostics::{
    check_diagnostics, checked_position_in_text, cursor_diagnostics, cursor_linter_errors,
    position_in_text, ActiveBufferDiagnostic,
};
use edit_prediction::json::Json;
use edit_prediction::point::Point;

fn object(fields: Vec<(&str, Json)>) -> Json {
    Json::Object(fields.into_iter().map(|(key, value)| (key.to_string(), value)).collect())
}

fn string(text: &str) -> Json {
    Json::Str(text.to_string())
}

fn marked_range() -> Json {
    object(vec![
        ("startLine", Json::Int(10)),
        ("startColumn", Json::Int(14)),
        ("endLine", Json::Int(10)),
        ("endColumn", Json::Int(24)),
    ])
}

#[test]
fn test_cursor_diagnostics_match_cursor_proto_shape() {
    let diagnostics = vec![ActiveBufferDiagnostic {
        severity: Some(1),
        message: "Cannot find name `nullthrows`.".to_string(),
        snippet: "const value = nullthrows(foo);\n".to_string(),
        snippet_buffer_row_range: 10..11,
        diagnostic_range_in_snippet: 14..24,
    }];

    assert_eq!(
        cursor_diagnostics(&diagnostics),
        Json::Array(vec![object(vec![
            ("message", string("Cannot find name `nullthrows`.")),
            ("range", marked_range()),
            ("severity", Json::Int(1)),
            ("relatedInformation", Json::Array(vec![])),
        ])])
    );
    assert_eq!(
        cursor_linter_errors("src/file.ts", "const value = nullthrows(foo);\n", &diagnostics),
        object(vec![
            ("relativeWorkspacePath", string("src/file.ts")),
            (
                "errors",
                Json::Array(vec![object(vec![
                    ("message", string("Cannot find name `nullthrows`.")),
                    ("range", marked_range()),
                    ("relatedInformation", Json::Array(vec![])),
                    ("severity", Json::Int(1)),
                    ("isStale", Json::Bool(false)),
                ])])
            ),
            ("fileContents", string("const value = nullthrows(foo);\n")),
        ])
    );
}

#[test]
fn no_severity_is_zero() {
    let diagnostics = vec![ActiveBufferDiagnostic {
        severity: None,
        message: String::new(),
        snippet: "a\nbc".to_string(),
        snippet_buffer_row_range: 7..9,
        diagnostic_range_in_snippet: 1..3,
    }];
    assert!(check_diagnostics(&diagnostics));
    assert_eq!(
        cursor_diagnostics(&diagnostics),
        Json::Array(vec![object(vec![
            ("message", string("")),
            (
                "range",
                object(vec![
                    ("startLine", Json::Int(7)),
                    ("startColumn", Json::Int(1)),
                    ("endLine", Json::Int(8)),
                    ("endColumn", Json::Int(1)),
                ])
            ),
            ("severity", Json::Int(0)),
            ("relatedInformation", Json::Array(vec![])),
        ])])
    );
}

#[test]
fn rows_beyond_the_last_do_not_fit() {
    let diagnostics = vec![ActiveBufferDiagnostic {
        severity: None,
        message: String::new(),
        snippet: "\n".to_string(),
        snippet_buffer_row_range: u32::MAX..u32::MAX,
        diagnostic_range_in_snippet: 0..1,
    }];
    assert!(!check_diagnostics(&diagnostics));
}

#[test]
fn positions() {
    let text = "ab\né¢\n";
    let expected = [(0, 0), (0, 1), (0, 2), (1, 0), (1, 1), (1, 1), (1, 2), (1, 2), (2, 0)];
    let mut last = Point::new(0, 0);
    for (offset, (row, column)) in expected.into_iter().enumerate() {
        let point = position_in_text(text, offset);
        assert_eq!(point, Point::new(row, column), "offset {}", offset);
        assert!((last.row, last.column) <= (point.row, point.column));
        last = point;
    }
    assert_eq!(position_in_text(text, 1000), Point::new(2, 0));
    assert_eq!(checked_position_in_text("", 3), Some(Point::new(0, 0)));
}
