use edit_prediction::context::{BufferChange, OpenBuffer, OpenFile, RelatedExcerpt, RelatedFile};
use edit_prediction::diagnostics::ActiveBufferDiagnostic;
use edit_prediction::json::Json;
use edit_prediction::path::{below_root_or_path, relative_cursor_path};
use edit_prediction::point::{ExternalPosition, Point, PointRange};
use edit_prediction::request::{
    build_cursor_request, build_request, diagnostic_search_range, language_id, line_ending,
    CurrentFile, EditorContext,
};

fn text(s: &str) -> String {
    s.to_string()
}

fn string(s: &str) -> Json {
    Json::Str(text(s))
}

fn nothing() -> Json {
    Json::Array(vec![])
}

fn object(fields: Vec<(&str, Json)>) -> Json {
    Json::Object(fields.into_iter().map(|(key, value)| (text(key), value)).collect())
}

fn field<'a>(json: &'a Json, name: &str) -> &'a Json {
    match json {
        Json::Object(fields) => {
            &fields.iter().find(|(key, _)| key == name).expect("no such field").1
        }
        _ => panic!("not an object"),
    }
}

fn empty_context() -> EditorContext {
    EditorContext {
        events: vec![],
        related_files: vec![],
        open_buffers: vec![],
        active_buffer_diagnostics: vec![],
    }
}

#[test]
fn paths_below_the_root() {
    let relative = |absolute: &str, root: &str| relative_cursor_path("p", Some(absolute), Some(root));
    assert_eq!(relative("/work/src/a.rs", "/work"), "src/a.rs");
    assert_eq!(relative("/work/src/a.rs", "/work/"), "src/a.rs");
    assert_eq!(relative("/work/src/a.rs", "/other"), "p");
    assert_eq!(relative("/workshop/a.rs", "/work"), "p");
    assert_eq!(relative("/work", "/work"), "");
    assert_eq!(relative_cursor_path("p", None, Some("/work")), "p");
    assert_eq!(relative_cursor_path("p", Some("/work/a"), None), "p");
    assert_eq!(below_root_or_path("p", Some(text("q"))), "q");
    assert_eq!(below_root_or_path("p", None), "p");
}

#[test]
fn languages() {
    assert_eq!(language_id(None), "plaintext");
    assert_eq!(language_id(Some("Shell Script")), "shellscript");
    assert_eq!(language_id(Some(" C++\t")), "c++");
    assert_eq!(language_id(Some("")), "");
}

#[test]
fn line_endings() {
    assert_eq!(line_ending("a\nb"), "\n");
    assert_eq!(line_ending("a\nb\r\n"), "\r\n");
    assert_eq!(line_ending("a\rb"), "\n");
}

#[test]
fn rows_for_diagnostics() {
    let rows = |start: u32, end: u32| PointRange { start: Point::new(start, 0), end: Point::new(end, 0) };
    assert_eq!(diagnostic_search_range(Point::new(5, 7)), rows(0, 25));
    assert_eq!(diagnostic_search_range(Point::new(50, 7)), rows(30, 70));
}

#[test]
fn positions_are_converted() {
    let position = ExternalPosition::from(Point::new(3, 4));
    assert_eq!(position, ExternalPosition { line: 3, column: 4 });
    assert_eq!(Point::from(position), Point::new(3, 4));
}

#[test]
fn lines_are_counted() {
    for contents in ["", "a", "a\n", "a\nb\n\n", "a\r\nb\nc", "\r\n\r\n", "\r\r\n"] {
        let request =
            build_cursor_request("p", None, None, None, contents, Point::new(0, 0), &[], &empty_context())
                .unwrap();
        let file = field(&request, "currentFile");
        let count = contents.split(line_ending(contents)).count();
        assert_eq!(field(file, "totalNumberOfLines"), &Json::Int(count as i128));
        assert_eq!(field(file, "lineEnding"), &string(line_ending(contents)));
    }
}

#[test]
fn an_untitled_buffer() {
    let request = build_request(None, None, text("x"), Point::new(0, 1), &[], &empty_context());
    assert_eq!(request.version, 1);
    assert_eq!(request.path, "untitled");
    assert_eq!(request.absolute_path, None);
    assert_eq!(request.workspace_root, None);
    assert_eq!(request.language, None);
    assert_eq!(request.contents, "x");
    assert_eq!(request.cursor, ExternalPosition { line: 0, column: 1 });
    assert_eq!(
        request.cursor_request.unwrap(),
        object(vec![
            (
                "currentFile",
                object(vec![
                    ("relativeWorkspacePath", string("untitled")),
                    ("contents", string("x")),
                    (
                        "cursorPosition",
                        object(vec![("line", Json::Int(0)), ("column", Json::Int(1))])
                    ),
                    ("dataframes", nothing()),
                    ("languageId", string("plaintext")),
                    ("diagnostics", nothing()),
                    ("totalNumberOfLines", Json::Int(1)),
                    ("contentsStartAtLine", Json::Int(0)),
                    ("topChunks", nothing()),
                    ("fileVersion", Json::Int(0)),
                    ("cellStartLines", nothing()),
                    ("cells", nothing()),
                    ("relyOnFilesync", Json::Bool(false)),
                    ("workspaceRootPath", string("")),
                    ("lineEnding", string("\n")),
                ])
            ),
            ("diffHistory", nothing()),
            ("diffHistoryKeys", nothing()),
            ("fileDiffHistories", nothing()),
            ("mergedDiffHistories", nothing()),
            ("blockDiffPatches", nothing()),
            ("contextItems", nothing()),
            ("parameterHints", nothing()),
            ("lspContexts", nothing()),
            ("cppIntentInfo", object(vec![("source", string("line_change"))])),
            ("enableMoreContext", Json::Bool(true)),
            ("workspaceId", string("")),
            ("additionalFiles", nothing()),
            ("clientTime", Json::Int(0)),
            ("filesyncUpdates", nothing()),
            ("timeSinceRequestStart", Json::Int(0)),
            ("timeAtRequestSend", Json::Int(0)),
            ("clientTimezoneOffset", Json::Int(0)),
            ("lspSuggestedItems", object(vec![("suggestions", nothing())])),
            ("supportsCpt", Json::Bool(false)),
            ("supportsCrlfCpt", Json::Bool(false)),
            ("codeResults", nothing()),
            (
                "linterErrors",
                object(vec![
                    ("relativeWorkspacePath", string("untitled")),
                    ("errors", nothing()),
                    ("fileContents", string("x")),
                ])
            ),
        ])
    );
}

#[test]
fn a_file_in_a_workspace() {
    let context = EditorContext {
        events: vec![
            BufferChange { path: text("src/a.rs"), diff: text("d1") },
            BufferChange { path: text("src/b.rs"), diff: text("d2") },
        ],
        related_files: vec![RelatedFile {
            path: text("src/r.rs"),
            excerpts: vec![RelatedExcerpt { row_range: 1..2, text: text("r") }],
        }],
        open_buffers: vec![
            OpenBuffer {
                file: Some(OpenFile {
                    path: text("w/src/a.rs"),
                    absolute_path: Some(text("/w/src/a.rs")),
                }),
                text: text("current"),
            },
            OpenBuffer {
                file: Some(OpenFile {
                    path: text("w/src/o.rs"),
                    absolute_path: Some(text("/w/src/o.rs")),
                }),
                text: text("open"),
            },
        ],
        active_buffer_diagnostics: vec![ActiveBufferDiagnostic {
            severity: Some(2),
            message: text("m"),
            snippet: text("a\nbc"),
            snippet_buffer_row_range: 4..6,
            diagnostic_range_in_snippet: 2..4,
        }],
    };
    assert!(context.check());
    let file = CurrentFile {
        path: text("w/src/a.rs"),
        absolute_path: Some(text("/w/src/a.rs")),
        workspace_root: Some(text("/w")),
    };
    let request = build_request(
        Some(file),
        Some(text("Rust")),
        text("a\nbc"),
        Point::new(1, 2),
        &[text("len")],
        &context,
    );
    assert_eq!(request.path, "w/src/a.rs");
    assert_eq!(request.absolute_path, Some(text("/w/src/a.rs")));
    assert_eq!(request.workspace_root, Some(text("/w")));
    assert_eq!(request.language, Some(text("Rust")));

    let detail = request.cursor_request.unwrap();
    let current = field(&detail, "currentFile");
    assert_eq!(field(current, "relativeWorkspacePath"), &string("src/a.rs"));
    assert_eq!(field(current, "languageId"), &string("rust"));
    assert_eq!(field(current, "workspaceRootPath"), &string("/w"));
    assert_eq!(field(current, "totalNumberOfLines"), &Json::Int(2));
    assert_eq!(field(&detail, "workspaceId"), &string("/w"));
    assert_eq!(field(&detail, "diffHistory"), &Json::Array(vec![string("d1")]));
    match field(&detail, "additionalFiles") {
        Json::Array(files) => {
            let paths: Vec<&Json> =
                files.iter().map(|file| field(file, "relativeWorkspacePath")).collect();
            assert_eq!(paths, vec![&string("src/r.rs"), &string("src/o.rs")]);
        }
        _ => panic!("not an array"),
    }
    match field(current, "diagnostics") {
        Json::Array(diagnostics) => {
            let range = field(&diagnostics[0], "range");
            assert_eq!(field(range, "startLine"), &Json::Int(5));
            assert_eq!(field(range, "startColumn"), &Json::Int(0));
            assert_eq!(field(range, "endLine"), &Json::Int(5));
            assert_eq!(field(range, "endColumn"), &Json::Int(2));
        }
        _ => panic!("not an array"),
    }
    assert_eq!(
        field(&detail, "lspSuggestedItems"),
        &object(vec![("suggestions", Json::Array(vec![object(vec![("label", string("len"))])]))])
    );
    assert_eq!(
        field(field(&detail, "linterErrors"), "relativeWorkspacePath"),
        &string("src/a.rs")
    );
}

#[test]
fn rows_that_cannot_be_sent() {
    let mut context = empty_context();
    assert!(context.check());
    context.active_buffer_diagnostics.push(ActiveBufferDiagnostic {
        severity: None,
        message: text(""),
        snippet: text("\n\n"),
        snippet_buffer_row_range: u32::MAX - 1..u32::MAX,
        diagnostic_range_in_snippet: 0..2,
    });
    assert!(!context.check());
}
