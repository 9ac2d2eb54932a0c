use edit_prediction::context::{
    additional_files_json, append_open_buffer_additional_files, check_related_files,
    cursor_additional_files, cursor_code_results, cursor_file_diff_histories, diff_history_of,
    file_diff_histories_json, AdditionalFile, BufferChange, FileDiffHistory, OpenBuffer, OpenFile,
    RelatedExcerpt, RelatedFile, VisibleRange,
};
use edit_prediction::distinct::any_is;
use edit_prediction::json::Json;

fn text(s: &str) -> String {
    s.to_string()
}

fn string(s: &str) -> Json {
    Json::Str(text(s))
}

fn object(fields: Vec<(&str, Json)>) -> Json {
    Json::Object(fields.into_iter().map(|(key, value)| (text(key), value)).collect())
}

fn change(path: &str, diff: &str) -> BufferChange {
    BufferChange { path: text(path), diff: text(diff) }
}

#[test]
fn changes_are_grouped_by_file() {
    let histories = cursor_file_diff_histories(&[
        change("b", "1"),
        change("a", "2"),
        change("b", "3"),
    ]);
    assert_eq!(
        histories,
        vec![
            FileDiffHistory { file_name: text("b"), diff_history: vec![text("1"), text("3")] },
            FileDiffHistory { file_name: text("a"), diff_history: vec![text("2")] },
        ]
    );
    assert_eq!(
        diff_history_of(&histories, &text("b")),
        Json::Array(vec![string("1"), string("3")])
    );
    assert_eq!(diff_history_of(&histories, &text("c")), Json::Array(vec![]));
    assert_eq!(
        file_diff_histories_json(&histories),
        Json::Array(vec![
            object(vec![
                ("fileName", string("b")),
                ("diffHistory", Json::Array(vec![string("1"), string("3")])),
                ("diffHistoryTimestamps", Json::Array(vec![Json::Int(0), Json::Int(0)])),
            ]),
            object(vec![
                ("fileName", string("a")),
                ("diffHistory", Json::Array(vec![string("2")])),
                ("diffHistoryTimestamps", Json::Array(vec![Json::Int(0)])),
            ]),
        ])
    );
}

#[test]
fn the_latest_changes_are_kept() {
    let changes: Vec<BufferChange> = (0..25).map(|i| change("a", &i.to_string())).collect();
    let histories = cursor_file_diff_histories(&changes);
    assert_eq!(histories.len(), 1);
    let kept: Vec<String> = (5..25).map(|i| i.to_string()).collect();
    assert_eq!(histories[0].diff_history, kept);
    assert_eq!(cursor_file_diff_histories(&[]), vec![]);
}

#[test]
fn membership() {
    let texts = vec![text("a"), text("b")];
    assert!(any_is(&texts, &text("b")));
    assert!(!any_is(&texts, &text("c")));
}

fn related() -> Vec<RelatedFile> {
    vec![
        RelatedFile {
            path: text("a.rs"),
            excerpts: vec![
                RelatedExcerpt { row_range: 0..3, text: text("x") },
                RelatedExcerpt { row_range: 9..u32::MAX, text: text("y") },
            ],
        },
        RelatedFile { path: text("b.rs"), excerpts: vec![] },
    ]
}

fn lines(start: i128, end: i128) -> Json {
    object(vec![
        ("startLineNumber", Json::Int(start)),
        ("endLineNumberInclusive", Json::Int(end)),
    ])
}

#[test]
fn related_files_are_sent_with_their_lines() {
    let files = cursor_additional_files(&related());
    assert_eq!(
        additional_files_json(&files),
        Json::Array(vec![
            object(vec![
                ("relativeWorkspacePath", string("a.rs")),
                ("isOpen", Json::Bool(true)),
                ("visibleRangeContent", Json::Array(vec![string("x"), string("y")])),
                ("startLineNumberOneIndexed", Json::Array(vec![Json::Int(1), Json::Int(10)])),
                ("visibleRanges", Json::Array(vec![lines(1, 3), lines(10, -1)])),
            ]),
            object(vec![
                ("relativeWorkspacePath", string("b.rs")),
                ("isOpen", Json::Bool(true)),
                ("visibleRangeContent", Json::Array(vec![])),
                ("startLineNumberOneIndexed", Json::Array(vec![])),
                ("visibleRanges", Json::Array(vec![])),
            ]),
        ])
    );
}

#[test]
fn first_lines_of_excerpts_fit_or_not() {
    let file = |row: u32| {
        vec![RelatedFile {
            path: text("a"),
            excerpts: vec![RelatedExcerpt { row_range: row..row, text: text("") }],
        }]
    };
    assert!(check_related_files(&related()));
    assert!(check_related_files(&file(i32::MAX as u32 - 1)));
    assert!(!check_related_files(&file(i32::MAX as u32)));
    assert!(check_related_files(&file(i32::MAX as u32 + 1)));
    let files = cursor_additional_files(&file(i32::MAX as u32 + 1));
    assert_eq!(files[0].ranges[0].start_line, i32::MIN + 1);
    assert_eq!(files[0].ranges[0].end_line, i32::MIN);
}

#[test]
fn excerpts_are_sent_as_results() {
    let start = |row: i128| object(vec![("line", Json::Int(row)), ("column", Json::Int(0))]);
    let result = |from: i128, to: i128, contents: &str| {
        object(vec![
            (
                "codeBlock",
                object(vec![
                    ("relativeWorkspacePath", string("a.rs")),
                    (
                        "range",
                        object(vec![("startPosition", start(from)), ("endPosition", start(to))]),
                    ),
                    ("contents", string(contents)),
                ]),
            ),
            ("score", Json::Decimal { mantissa: 8, scale: 1 }),
        ])
    };
    assert_eq!(
        cursor_code_results(&related()),
        Json::Array(vec![result(0, 3, "x"), result(9, u32::MAX as i128, "y")])
    );
}

fn open(path: &str, absolute_path: Option<&str>, contents: &str) -> OpenBuffer {
    OpenBuffer {
        file: Some(OpenFile { path: text(path), absolute_path: absolute_path.map(text) }),
        text: text(contents),
    }
}

fn added(path: &str, contents: &str, end_line: i32) -> AdditionalFile {
    AdditionalFile {
        path: text(path),
        ranges: vec![VisibleRange { text: text(contents), start_line: 1, end_line }],
    }
}

#[test]
fn open_buffers_are_added() {
    let mut files = vec![added("given.rs", "g", 1)];
    append_open_buffer_additional_files(
        &mut files,
        &[
            open("w/given.rs", Some("/w/given.rs"), "again"),
            open("w/current.rs", Some("/w/current.rs"), "current"),
            OpenBuffer { file: None, text: text("untitled") },
            open("w/blank.rs", Some("/w/blank.rs"), " \n\t\n"),
            open("w/new.rs", Some("/w/new.rs"), "one\ntwo\n"),
            open("w/new.rs", Some("/w/new.rs"), "twice"),
            open("remote.rs", None, "r"),
        ],
        "current.rs",
        Some("/w"),
    );
    assert_eq!(
        files,
        vec![
            added("given.rs", "g", 1),
            added("new.rs", "one\ntwo\n", 3),
            added("remote.rs", "r", 1),
        ]
    );
}

#[test]
fn few_open_buffers_are_looked_at() {
    let buffers: Vec<OpenBuffer> =
        (0..12).map(|i| open(&format!("{}.rs", i), None, "x")).collect();
    let mut files = vec![];
    append_open_buffer_additional_files(&mut files, &buffers, "current.rs", None);
    assert_eq!(files.len(), 8);
    assert_eq!(files[7], added("7.rs", "x", 1));
}

#[test]
fn few_lines_of_an_open_buffer_are_sent() {
    let mut files = vec![];
    append_open_buffer_additional_files(
        &mut files,
        &[open("a.rs", None, &"x\n".repeat(500)), open("b.rs", None, &"x\n".repeat(199))],
        "current.rs",
        None,
    );
    assert_eq!(files[0], added("a.rs", "x\n".repeat(200).trim_end(), 200));
    assert_eq!(files[1], added("b.rs", &"x\n".repeat(199), 200));
}

#[test]
fn a_blank_beginning_is_not_sent() {
    let mut files = vec![];
    let contents = format!("{}x", "\n".repeat(200));
    append_open_buffer_additional_files(&mut files, &[open("a.rs", None, &contents)], "c", None);
    assert_eq!(files, vec![]);
}
