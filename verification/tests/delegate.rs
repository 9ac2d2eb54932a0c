use edit_prediction::delegate::{Acceptance, ExternalEditPredictionDelegate};
use edit_prediction::fate::{Fate, FateTask};
use edit_prediction::outcome::ExternalError;
use edit_prediction::prediction::{AnchoredEdit, CurrentExternalPrediction, EditPrediction};
use edit_prediction::refresh::{Inquiry, RefreshTask};

type Delegate = ExternalEditPredictionDelegate<u8, u16, u32, u64>;
type Current = CurrentExternalPrediction<u8, u16, u32, u64>;

const URL: &str = "http://h/predict";

fn local(id: Option<&str>) -> Current {
    CurrentExternalPrediction::Local {
        id: id.map(|id| id.to_string()),
        buffer: 1,
        snapshot: 2,
        edits: vec![AnchoredEdit { start: 3, end: 4, text: "x".to_string() }],
        edit_preview: 5,
    }
}

fn jump(id: Option<&str>) -> Current {
    CurrentExternalPrediction::Jump {
        id: id.map(|id| id.to_string()),
        snapshot: 2,
        target: 3,
        should_retrigger: false,
    }
}

fn inquiry() -> Inquiry<u8, u16, u32> {
    Inquiry { api_url: URL.to_string(), buffer: 1, snapshot: 2, cursor: 3 }
}

fn showing(prediction: Current) -> Delegate {
    let mut delegate = Delegate::new();
    let (id, _) = delegate.refresh(false, inquiry(), false).unwrap();
    assert!(delegate.finish(id, Ok(Some(prediction))));
    delegate
}

fn post(fate: Fate, url: &str) -> Option<FateTask> {
    let task = FateTask::start(fate, URL, "p".to_string());
    match &task {
        FateTask::Post { url: actual, .. } => assert_eq!(actual, url),
        _ => panic!("expected a post"),
    }
    Some(task)
}

#[test]
fn names_and_settings() {
    assert_eq!(Delegate::name(), "external");
    assert_eq!(Delegate::display_name(), "External Edit Prediction");
    assert!(Delegate::show_predictions_in_menu());
    assert!(Delegate::show_tab_accept_marker());
    assert!(Delegate::new().is_enabled());
}

#[test]
fn a_request_is_answered() {
    let mut delegate = Delegate::new();
    assert!(!delegate.is_refreshing());
    let (id, task) = delegate.refresh(false, inquiry(), true).unwrap();
    assert_eq!(task, RefreshTask::Debounce { inquiry: inquiry(), millis: 150 });
    assert!(delegate.is_refreshing());
    assert!(delegate.is_pending(id));
    assert!(delegate.finish(id, Ok(Some(jump(None)))));
    assert!(!delegate.is_refreshing());
    assert!(!delegate.is_pending(id));
    assert_eq!(delegate.current_prediction(), Some(&jump(None)));
    assert!(!delegate.finish(id, Ok(None)));
    assert_eq!(delegate.current_prediction(), Some(&jump(None)));
}

#[test]
fn edits_that_still_apply_are_kept() {
    let mut delegate = showing(local(None));
    assert_eq!(delegate.refresh(true, inquiry(), true), None);
    assert!(delegate.refresh(false, inquiry(), true).is_some());

    let mut delegate = showing(jump(None));
    assert!(delegate.refresh(true, inquiry(), false).is_some());
    assert!(!delegate.is_refreshing());
}

#[test]
fn the_latest_request_counts() {
    let mut delegate = Delegate::new();
    let (first, _) = delegate.refresh(false, inquiry(), false).unwrap();
    let (second, task) = delegate.refresh(false, inquiry(), false).unwrap();
    assert_eq!(task, RefreshTask::CollectCompletions { inquiry: inquiry(), timeout_millis: 120 });
    assert_ne!(first, second);
    assert!(!delegate.finish(first, Ok(Some(local(None)))));
    assert_eq!(delegate.current_prediction(), None);
    assert!(delegate.is_refreshing());
    assert!(delegate.finish(second, Ok(Some(jump(None)))));
    assert_eq!(delegate.current_prediction(), Some(&jump(None)));
}

#[test]
fn a_failure_changes_nothing() {
    let mut delegate = Delegate::new();
    let (id, _) = delegate.refresh(false, inquiry(), false).unwrap();
    let error = ExternalError { message: "m".to_string(), cause: None };
    assert!(!delegate.finish(id, Err(error)));
    assert!(delegate.is_refreshing());
    assert_eq!(delegate.current_prediction(), None);
}

#[test]
fn acceptance() {
    let mut delegate = showing(local(Some("p")));
    let accepted = delegate.accept(URL);
    assert_eq!(
        accepted,
        Acceptance {
            report: post(Fate::Accept, "http://h/accept"),
            quick_fix: Some((1, vec![AnchoredEdit { start: 3, end: 4, text: "x".to_string() }])),
        }
    );
    assert_eq!(delegate.current_prediction(), None);
    assert_eq!(delegate.accept(URL), Acceptance { report: None, quick_fix: None });

    let accepted = showing(local(None)).accept(URL);
    assert_eq!(accepted.report, None);
    assert!(accepted.quick_fix.is_some());

    let accepted = showing(jump(Some("p"))).accept(URL);
    assert!(accepted.report.is_some());
    assert_eq!(accepted.quick_fix, None);
}

#[test]
fn partial_acceptance_keeps_the_prediction() {
    let delegate = showing(jump(Some("p")));
    assert_eq!(
        delegate.partial_accept(URL),
        post(Fate::PartialAccept, "http://h/partial_accept")
    );
    assert_eq!(delegate.current_prediction(), Some(&jump(Some("p"))));
    assert_eq!(showing(jump(None)).partial_accept(URL), None);
    assert_eq!(Delegate::new().partial_accept(URL), None);
}

#[test]
fn rejection() {
    let mut delegate = showing(local(Some("p")));
    let (id, _) = delegate.refresh(false, inquiry(), false).unwrap();
    assert_eq!(delegate.discard(URL), post(Fate::Reject, "http://h/reject"));
    assert_eq!(delegate.current_prediction(), None);
    assert!(!delegate.is_refreshing());
    assert!(!delegate.finish(id, Ok(Some(jump(None)))));
    assert_eq!(delegate.current_prediction(), None);
    assert_eq!(delegate.discard(URL), None);
}

#[test]
fn suggestions() {
    assert_eq!(Delegate::new().suggest(None), None);
    let delegate = showing(local(Some("p")));
    assert_eq!(delegate.suggest(None), None);
    let left = || vec![AnchoredEdit { start: 4, end: 4, text: "".to_string() }];
    assert_eq!(
        delegate.suggest(Some(left())),
        Some(EditPrediction::Local {
            id: Some("p".to_string()),
            edits: left(),
            cursor_position: None,
            edit_preview: Some(5),
        })
    );
    assert_eq!(
        showing(jump(None)).suggest(None),
        Some(EditPrediction::Jump { id: None, snapshot: 2, target: 3, should_retrigger: false })
    );
}

#[test]
fn an_answer_that_comes_much_later_is_ignored() {
    let mut delegate = Delegate::new();
    let (first, _) = delegate.refresh(false, inquiry(), false).unwrap();
    for _ in 0..3 {
        let (latest, _) = delegate.refresh(false, inquiry(), false).unwrap();
        assert!(delegate.finish(latest, Ok(Some(jump(None)))));
        assert!(!delegate.finish(first, Ok(Some(local(None)))));
        assert_eq!(delegate.current_prediction(), Some(&jump(None)));
    }
}
