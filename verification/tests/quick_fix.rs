use edit_prediction::outcome::ExternalError;
use edit_prediction::point::{Point, PointRange};
use edit_prediction::quick_fix::{
    accepted_edit_search_range, checked_search_range, code_action_kind_matches,
    import_quick_fix_code_action_kinds, import_quick_fix_index, import_quick_fix_priority,
    is_import_code_action, select_import_quick_fix, select_import_quick_fix_attempt,
    select_import_quick_fix_from_attempts, AcceptedEdit, CodeAction, CodeActionKind,
    ImportQuickFixEvent, ImportQuickFixTask, IMPORT_QUICK_FIX_RETRY_DELAYS_MS,
};

#[test]
fn test_import_code_action_selection() {
    assert!(is_import_code_action(
        Some(&CodeActionKind::quickfix()),
        "Add import from \"shared-utils\"",
        false,
    ));
    assert!(is_import_code_action(
        Some(&CodeActionKind::new("source.addMissingImports.ts")),
        "Add all missing imports",
        false,
    ));
    assert!(is_import_code_action(
        Some(&CodeActionKind::new("source.addMissingImports.ts")),
        "Apply source action",
        false,
    ));
    assert!(!is_import_code_action(
        Some(&CodeActionKind::new("source.organizeImports")),
        "Organize Imports",
        false,
    ));
    assert!(!is_import_code_action(
        Some(&CodeActionKind::new("source.fixAll")),
        "Fix all auto-fixable problems",
        false,
    ));
    assert!(!is_import_code_action(
        Some(&CodeActionKind::quickfix()),
        "Remove unused import",
        false,
    ));
    assert!(!is_import_code_action(
        Some(&CodeActionKind::new("refactor")),
        "Add import",
        false,
    ));
    assert!(!is_import_code_action(
        Some(&CodeActionKind::quickfix()),
        "Add import",
        true,
    ));
}

fn test_code_action(title: &str, kind: CodeActionKind) -> CodeAction {
    CodeAction { title: title.to_string(), kind: Some(kind), disabled: false }
}

#[test]
fn test_import_quick_fix_requests_quickfix_and_source_actions() {
    let kinds = import_quick_fix_code_action_kinds();
    assert_eq!(
        kinds.iter().map(|kind| kind.as_str()).collect::<Vec<_>>(),
        vec![CodeActionKind::quickfix().as_str(), CodeActionKind::source().as_str()]
    );
    assert_eq!(CodeActionKind::quickfix().as_str(), "quickfix");
    assert_eq!(CodeActionKind::source().as_str(), "source");
}

#[test]
fn test_select_import_quick_fix_skips_source_actions_that_are_not_imports() {
    let selected = select_import_quick_fix(vec![
        test_code_action("Organize Imports", CodeActionKind::new("source.organizeImports")),
        test_code_action("Fix all auto-fixable problems", CodeActionKind::new("source.fixAll")),
        test_code_action("Add import from \"shared-utils\"", CodeActionKind::quickfix()),
    ])
    .expect("should select the import-looking action");

    assert_eq!(selected.title, "Add import from \"shared-utils\"");
}

#[test]
fn test_import_quick_fix_retry_selects_first_import_after_lsp_settles() {
    let selected = select_import_quick_fix_from_attempts(vec![
        vec![],
        vec![
            test_code_action("Organize Imports", CodeActionKind::new("source.organizeImports")),
            test_code_action(
                "Fix all auto-fixable problems",
                CodeActionKind::new("source.fixAll"),
            ),
        ],
        vec![test_code_action(
            "Add import from \"shared-utils\"",
            CodeActionKind::quickfix(),
        )],
    ])
    .expect("should select the import action from the first settled attempt");

    assert_eq!(selected.0, 2);
    assert_eq!(selected.1.title, "Add import from \"shared-utils\"");
}

#[test]
fn test_select_import_quick_fix_prefers_specific_imports() {
    let selected = select_import_quick_fix(vec![
        test_code_action(
            "Add all missing imports",
            CodeActionKind::new("source.addMissingImports.ts"),
        ),
        test_code_action(
            "Import 'nullthrows' from module \"shared-utils\"",
            CodeActionKind::quickfix(),
        ),
        test_code_action("Add import from \"shared-utils\"", CodeActionKind::quickfix()),
    ])
    .expect("should select the most specific import quick fix");

    assert_eq!(selected.title, "Import 'nullthrows' from module \"shared-utils\"");
}

fn at(row: u32, column: u32) -> Point {
    Point::new(row, column)
}

fn accepted(start: Point, end: Point, text: &str) -> AcceptedEdit {
    AcceptedEdit { range: PointRange { start, end }, text: text.to_string() }
}

#[test]
fn test_accepted_edit_search_range_tracks_inserted_prediction() {
    // In "const value = \n", before the edit is applied ...
    let before = vec![accepted(at(0, 14), at(0, 14), "nullthrows(foo);\n")];
    assert_eq!(
        accepted_edit_search_range(&before, at(1, 0)),
        PointRange { start: at(0, 0), end: at(1, 0) }
    );
    // ... and after it, when the edit covers the text that it inserted.
    let after = vec![accepted(at(0, 14), at(1, 0), "nullthrows(foo);\n")];
    assert_eq!(
        accepted_edit_search_range(&after, at(2, 0)),
        PointRange { start: at(0, 0), end: at(2, 0) }
    );
}

#[test]
fn search_range_has_a_margin() {
    let edits = vec![
        accepted(at(20, 1), at(22, 2), "x"),
        accepted(at(10, 5), at(10, 5), "a\nb\n"),
    ];
    assert_eq!(
        accepted_edit_search_range(&edits, at(100, 7)),
        PointRange { start: at(7, 0), end: at(25, 7) }
    );
    let inserted = vec![accepted(at(10, 5), at(10, 5), "a\nb\n")];
    assert_eq!(
        accepted_edit_search_range(&inserted, at(100, 7)),
        PointRange { start: at(7, 0), end: at(15, 7) }
    );
    assert_eq!(
        accepted_edit_search_range(&[], at(2, 1)),
        PointRange { start: at(0, 0), end: at(2, 1) }
    );
    assert_eq!(
        accepted_edit_search_range(&[], at(9, 1)),
        PointRange { start: at(0, 0), end: at(3, 1) }
    );
}

#[test]
fn search_range_that_cannot_be_counted() {
    let end = at(u32::MAX, 0);
    assert_eq!(checked_search_range(&[accepted(end, end, "\n")], end), None);
    assert_eq!(checked_search_range(&[accepted(end, end, "")], end), None);
    let last = at(u32::MAX - 3, 0);
    assert_eq!(
        checked_search_range(&[accepted(last, last, "")], end),
        Some(PointRange { start: at(u32::MAX - 6, 0), end })
    );
}

#[test]
fn kinds_match_by_whole_names() {
    let source = CodeActionKind::source();
    assert!(code_action_kind_matches(&source, &CodeActionKind::source()));
    assert!(code_action_kind_matches(&source, &CodeActionKind::new("source.fixAll")));
    assert!(!code_action_kind_matches(&source, &CodeActionKind::new("sourceless")));
    assert!(!code_action_kind_matches(&source, &CodeActionKind::new("sourc")));
    assert!(!code_action_kind_matches(&CodeActionKind::new("source.fixAll"), &source));
}

#[test]
fn priorities() {
    let quickfix = CodeActionKind::quickfix;
    let missing = || CodeActionKind::new("source.addMissingImports");
    let priority = |title: &str, kind: CodeActionKind| {
        import_quick_fix_priority(&test_code_action(title, kind))
    };
    assert_eq!(priority("Update IMPORT FROM \"m\"", missing()), Some(0));
    assert_eq!(priority("import a from \"m\"", missing()), Some(0));
    assert_eq!(priority("Auto import a from \"m\"", quickfix()), Some(1));
    assert_eq!(priority("Add all missing imports", missing()), Some(2));
    assert_eq!(priority("Import a", CodeActionKind::source()), Some(3));
    assert_eq!(priority("Rename", quickfix()), None);
    assert_eq!(
        import_quick_fix_priority(&CodeAction {
            title: "Import a".to_string(),
            kind: None,
            disabled: false
        }),
        Some(3)
    );
    assert_eq!(
        import_quick_fix_priority(&CodeAction {
            title: "Import a".to_string(),
            kind: None,
            disabled: true
        }),
        None
    );
}

#[test]
fn selection_of_nothing() {
    assert_eq!(select_import_quick_fix_attempt(vec![]), None);
    assert_eq!(import_quick_fix_index(&vec![test_code_action("x", CodeActionKind::source())]), None);
    assert_eq!(select_import_quick_fix_from_attempts(vec![vec![], vec![]]), None);
}

#[test]
fn first_of_equals_is_selected() {
    let actions = vec![
        test_code_action("Add import a", CodeActionKind::source()),
        test_code_action("Add import b", CodeActionKind::quickfix()),
        test_code_action("Add import c", CodeActionKind::quickfix()),
    ];
    assert_eq!(import_quick_fix_index(&actions), Some(1));
    assert_eq!(select_import_quick_fix_attempt(actions).unwrap().title, "Add import b");
}

fn waited() -> ImportQuickFixEvent {
    ImportQuickFixEvent::Waited {
        edits: vec![accepted(at(10, 5), at(11, 0), "a\n")],
        max_point: at(100, 7),
    }
}

#[test]
fn retries_apply_the_first_import() {
    let mut task = ImportQuickFixTask::start();
    for (attempt, millis) in [100, 250].into_iter().enumerate() {
        assert_eq!(task, ImportQuickFixTask::Wait { attempt, millis });
        assert!(task.awaits(&waited()));
        assert!(!task.awaits(&ImportQuickFixEvent::Applied));
        task = task.step(&waited());
        let range = PointRange { start: at(7, 0), end: at(14, 7) };
        assert_eq!(task, ImportQuickFixTask::RequestActions { attempt, range });
        let actions = match attempt {
            0 => None,
            _ => Some(vec![
                test_code_action("Organize Imports", CodeActionKind::source()),
                test_code_action("Add import from \"m\"", CodeActionKind::quickfix()),
            ]),
        };
        task = task.step(&ImportQuickFixEvent::Actions(actions));
    }
    assert_eq!(task, ImportQuickFixTask::Apply { attempt: 1, index: 1 });
    assert_eq!(
        task.step(&ImportQuickFixEvent::Applied),
        ImportQuickFixTask::Finished(Ok(()))
    );
}

#[test]
fn retries_end() {
    let mut task = ImportQuickFixTask::start();
    let mut waits = Vec::new();
    while let ImportQuickFixTask::Wait { millis, .. } = task {
        waits.push(millis);
        task = task.step(&waited());
        task = task.step(&ImportQuickFixEvent::Actions(Some(vec![])));
    }
    assert_eq!(waits, vec![100, 250, 500, 900]);
    assert_eq!(waits, IMPORT_QUICK_FIX_RETRY_DELAYS_MS.to_vec());
    assert_eq!(task, ImportQuickFixTask::Finished(Ok(())));
}

#[test]
fn rows_that_cannot_be_counted_are_not_awaited() {
    let end = at(u32::MAX, 0);
    let event =
        ImportQuickFixEvent::Waited { edits: vec![accepted(end, end, "\n")], max_point: end };
    assert!(!ImportQuickFixTask::start().awaits(&event));
}

#[test]
fn failures_end_the_retries() {
    let failed = || ImportQuickFixEvent::Failed("no server".to_string());
    let error = || ExternalError { message: "no server".to_string(), cause: None };
    let asking = ImportQuickFixTask::start().step(&waited());
    assert!(asking.awaits(&failed()));
    assert_eq!(asking.step(&failed()), ImportQuickFixTask::Finished(Err(error())));
    let unanswered = ImportQuickFixTask::start()
        .step(&waited())
        .step(&ImportQuickFixEvent::Actions(None))
        .step(&waited());
    assert_eq!(unanswered.step(&failed()), ImportQuickFixTask::Finished(Err(error())));
    let applying = ImportQuickFixTask::Apply { attempt: 0, index: 0 };
    assert!(applying.awaits(&failed()));
    assert_eq!(applying.step(&failed()), ImportQuickFixTask::Finished(Err(error())));
}
