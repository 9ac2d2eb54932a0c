use edit_prediction::context::{RelatedExcerpt, RelatedFile};
use edit_prediction::labels::Completion;
use edit_prediction::outcome::{ExternalError, HttpStatus};
use edit_prediction::point::{ExternalPosition, Point};
use edit_prediction::prediction::{AnchoredEdit, CurrentExternalPrediction};
use edit_prediction::refresh::{Inquiry, RefreshEvent, RefreshTask};
use edit_prediction::request::{build_request, CurrentFile, EditorContext};
use edit_prediction::wire::{
    ExternalEdit, ExternalEditPredictionResponse, ExternalJump, ExternalRange,
};

type Task = RefreshTask<u8, u16, u32, u64>;
type Event = RefreshEvent<u16, u32, u64>;

fn text(s: &str) -> String {
    s.to_string()
}

fn inquiry() -> Inquiry<u8, u16, u32> {
    Inquiry { api_url: text("http://h/predict"), buffer: 1, snapshot: 2, cursor: 3 }
}

fn context(row: u32) -> EditorContext {
    EditorContext {
        events: vec![],
        related_files: vec![RelatedFile {
            path: text("r.rs"),
            excerpts: vec![RelatedExcerpt { row_range: row..row, text: text("r") }],
        }],
        open_buffers: vec![],
        active_buffer_diagnostics: vec![],
    }
}

fn file() -> Option<CurrentFile> {
    Some(CurrentFile { path: text("a.rs"), absolute_path: None, workspace_root: None })
}

fn gathered(row: u32) -> Event {
    RefreshEvent::Gathered {
        file: file(),
        language: None,
        contents: text("x"),
        cursor: Point::new(0, 1),
        context: context(row),
    }
}

/// The task that posts the request for "a.rs" with the label "len".
fn post() -> Task {
    let gather: Task =
        RefreshTask::GatherContext { inquiry: inquiry(), labels: vec![text("len")] };
    assert!(gather.awaits(&gathered(1)));
    gather.step(gathered(1))
}

fn status(code: u16) -> HttpStatus {
    HttpStatus { code, text: format!("{} Status", code) }
}

fn position(line: u32, column: u32) -> ExternalPosition {
    ExternalPosition { line, column }
}

fn edit(path: Option<&str>, line: u32, new_text: &str) -> ExternalEdit {
    ExternalEdit {
        path: path.map(text),
        range: ExternalRange { start: position(line, 1), end: position(line, 2) },
        text: text(new_text),
    }
}

fn jump(should_retrigger: Option<bool>) -> ExternalJump {
    ExternalJump {
        path: text("b.rs"),
        position: position(1, 1),
        expected_content: Some(text("needle")),
        should_retrigger,
    }
}

fn response(edits: Vec<ExternalEdit>, jump: Option<ExternalJump>) -> ExternalEditPredictionResponse {
    ExternalEditPredictionResponse { id: Some(text("id")), edits, jump }
}

fn parsed(edits: Vec<ExternalEdit>, jump: Option<ExternalJump>) -> Task {
    let parse: Task = RefreshTask::Parse { inquiry: inquiry(), path: text("a.rs"), body: text("{}") };
    let event = RefreshEvent::Parsed(response(edits, jump));
    assert!(parse.awaits(&event));
    parse.step(event)
}

fn failure(message: &str, cause: Option<&str>) -> Task {
    RefreshTask::Finished(Err(ExternalError { message: text(message), cause: cause.map(text) }))
}

#[test]
fn debouncing_comes_first() {
    let task: Task = RefreshTask::start(inquiry(), true);
    assert_eq!(task, RefreshTask::Debounce { inquiry: inquiry(), millis: 150 });
    assert!(task.awaits(&RefreshEvent::Debounced));
    assert!(!task.awaits(&RefreshEvent::NoTarget));
    let next = task.step(RefreshEvent::Debounced);
    assert_eq!(next, RefreshTask::CollectCompletions { inquiry: inquiry(), timeout_millis: 120 });
    assert_eq!(next, RefreshTask::start(inquiry(), false));
}

#[test]
fn completions_become_labels() {
    let completion = |label: &str| Completion { lsp_label: Some(text(label)), label_text: text("") };
    let task: Task = RefreshTask::start(inquiry(), false);
    let event =
        RefreshEvent::Completions(vec![completion("a "), completion(""), completion("a"), completion("b")]);
    assert!(task.awaits(&event));
    assert_eq!(
        task.step(event),
        RefreshTask::GatherContext { inquiry: inquiry(), labels: vec![text("a"), text("b")] }
    );
}

#[test]
fn the_request_is_made_of_labels_and_context() {
    let request =
        build_request(file(), None, text("x"), Point::new(0, 1), &[text("len")], &context(1));
    let other = build_request(file(), None, text("x"), Point::new(0, 1), &[], &context(1));
    assert_ne!(request, other);
    assert_eq!(post(), RefreshTask::Post { inquiry: inquiry(), request });
}

#[test]
fn a_context_that_cannot_be_sent_is_not_awaited() {
    let gather: Task = RefreshTask::GatherContext { inquiry: inquiry(), labels: vec![] };
    assert!(!gather.awaits(&gathered(i32::MAX as u32)));
}

#[test]
fn the_reply_is_read_for_the_path_of_the_request() {
    let elsewhere = post()
        .step(RefreshEvent::Responded(status(200)))
        .step(RefreshEvent::Body(text("{}")))
        .step(RefreshEvent::Parsed(response(vec![edit(Some("untitled"), 0, "y")], None)));
    assert!(matches!(elsewhere, RefreshTask::OpenTarget { .. }));
    let here = post()
        .step(RefreshEvent::Responded(status(200)))
        .step(RefreshEvent::Body(text("{}")))
        .step(RefreshEvent::Parsed(response(vec![edit(Some("a.rs"), 0, "y")], None)));
    assert!(matches!(here, RefreshTask::PlaceEdits { .. }));
}

#[test]
fn sending_can_fail() {
    assert_eq!(post().step(RefreshEvent::NotBuilt(text("bad uri"))), failure("bad uri", None));
    assert_eq!(
        post().step(RefreshEvent::NotSent(text("refused"))),
        failure("failed to send external edit prediction request", Some("refused"))
    );
    assert_eq!(
        post().step(RefreshEvent::Responded(status(200))),
        RefreshTask::ReadBody { inquiry: inquiry(), path: text("a.rs"), status: status(200) }
    );
}

#[test]
fn bodies() {
    let read = |code: u16| -> Task {
        RefreshTask::ReadBody { inquiry: inquiry(), path: text("a.rs"), status: status(code) }
    };
    let body = |s: &str| -> Event { RefreshEvent::Body(text(s)) };
    assert_eq!(read(200).step(RefreshEvent::NotRead(text("reset"))), failure("reset", None));
    assert_eq!(
        read(500).step(body("oops")),
        failure("external edit prediction server error: 500 Status - oops", None)
    );
    assert_eq!(
        read(404).step(body("")),
        failure("external edit prediction server error: 404 Status - ", None)
    );
    assert_eq!(read(204).step(body(" \n\t")), RefreshTask::Finished(Ok(None)));
    assert_eq!(
        read(299).step(body(" {} ")),
        RefreshTask::Parse { inquiry: inquiry(), path: text("a.rs"), body: text(" {} ") }
    );
    let parse: Task = RefreshTask::Parse { inquiry: inquiry(), path: text("a.rs"), body: text("?") };
    assert_eq!(
        parse.step(RefreshEvent::NotParsed(text("expected value"))),
        failure("failed to parse external edit prediction", Some("expected value"))
    );
}

#[test]
fn local_edits_are_placed() {
    let edits = || vec![edit(None, 3, "x"), edit(Some("a.rs"), 4, "y")];
    let task = parsed(edits(), Some(jump(None)));
    assert_eq!(
        task,
        RefreshTask::PlaceEdits { inquiry: inquiry(), id: Some(text("id")), edits: edits() }
    );

    let too_few = RefreshEvent::Placed { anchors: vec![(5, 6)], edit_preview: 9 };
    assert!(!task.awaits(&too_few));
    let placed = RefreshEvent::Placed { anchors: vec![(5, 6), (7, 8)], edit_preview: 9 };
    assert!(task.awaits(&placed));
    assert_eq!(
        task.step(placed),
        RefreshTask::Finished(Ok(Some(CurrentExternalPrediction::Local {
            id: Some(text("id")),
            buffer: 1,
            snapshot: 2,
            edits: vec![
                AnchoredEdit { start: 5, end: 6, text: text("x") },
                AnchoredEdit { start: 7, end: 8, text: text("y") },
            ],
            edit_preview: 9,
        })))
    );
}

#[test]
fn an_edit_of_another_file_becomes_a_jump() {
    let task = parsed(
        vec![edit(None, 3, "x"), edit(Some("c.rs"), 7, "y"), edit(Some("d.rs"), 8, "z")],
        Some(jump(None)),
    );
    assert_eq!(
        task,
        RefreshTask::OpenTarget {
            id: Some(text("id")),
            jump: ExternalJump {
                path: text("c.rs"),
                position: position(7, 1),
                expected_content: None,
                should_retrigger: Some(true),
            },
        }
    );
    let task = task.step(RefreshEvent::Opened { contents: text("x\ny"), fallback: Point::new(1, 1) });
    assert_eq!(
        task,
        RefreshTask::AnchorTarget {
            id: Some(text("id")),
            point: Point::new(1, 1),
            should_retrigger: true
        }
    );
    assert_eq!(
        task.step(RefreshEvent::Anchored { snapshot: 2, target: 5 }),
        RefreshTask::Finished(Ok(Some(CurrentExternalPrediction::Jump {
            id: Some(text("id")),
            snapshot: 2,
            target: 5,
            should_retrigger: true,
        })))
    );
}

#[test]
fn jumps_are_followed() {
    for should_retrigger in [None, Some(false), Some(true)] {
        let task = parsed(vec![], Some(jump(should_retrigger)));
        assert_eq!(
            task,
            RefreshTask::OpenTarget { id: Some(text("id")), jump: jump(should_retrigger) }
        );
        let task = task.step(RefreshEvent::Opened {
            contents: text("a\nb\n  needle"),
            fallback: Point::new(1, 1),
        });
        assert_eq!(
            task,
            RefreshTask::AnchorTarget {
                id: Some(text("id")),
                point: Point::new(2, 2),
                should_retrigger: should_retrigger == Some(true),
            }
        );
    }
}

#[test]
fn jumps_can_fail() {
    let open = || parsed(vec![], Some(jump(None)));
    assert_eq!(open().step(RefreshEvent::NoTarget), RefreshTask::Finished(Ok(None)));
    assert_eq!(open().step(RefreshEvent::NotOpened(text("gone"))), failure("gone", None));
}

#[test]
fn an_empty_response_is_no_prediction() {
    assert_eq!(parsed(vec![], None), RefreshTask::Finished(Ok(None)));
}
