use edit_prediction::fate::{
    external_accept_url, external_partial_accept_url, external_reject_url,
};

#[test]
fn test_external_accept_url() {
    assert_eq!(
        external_accept_url("http://127.0.0.1:17878/predict"),
        "http://127.0.0.1:17878/accept"
    );
    assert_eq!(
        external_accept_url("http://127.0.0.1:17878/custom"),
        "http://127.0.0.1:17878/custom/accept"
    );
    assert_eq!(
        external_accept_url("http://127.0.0.1:17878/custom/"),
        "http://127.0.0.1:17878/custom/accept"
    );
}

#[test]
fn test_external_reject_url() {
    assert_eq!(
        external_reject_url("http://127.0.0.1:17878/predict"),
        "http://127.0.0.1:17878/reject"
    );
    assert_eq!(
        external_reject_url("http://127.0.0.1:17878/custom"),
        "http://127.0.0.1:17878/custom/reject"
    );
    assert_eq!(
        external_reject_url("http://127.0.0.1:17878/custom/"),
        "http://127.0.0.1:17878/custom/reject"
    );
}

#[test]
fn test_external_partial_accept_url() {
    assert_eq!(
        external_partial_accept_url("http://127.0.0.1:17878/predict"),
        "http://127.0.0.1:17878/partial_accept"
    );
    assert_eq!(
        external_partial_accept_url("http://127.0.0.1:17878/custom"),
        "http://127.0.0.1:17878/custom/partial_accept"
    );
    assert_eq!(
        external_partial_accept_url("http://127.0.0.1:17878/custom/"),
        "http://127.0.0.1:17878/custom/partial_accept"
    );
}

use edit_prediction::fate::{external_fate_url, Fate, FateEvent, FateTask};
use edit_prediction::outcome::HttpStatus;

#[test]
fn fate_url_edge_cases() {
    assert_eq!(external_fate_url("", "accept"), "/accept");
    assert_eq!(external_fate_url("///", "accept"), "/accept");
    assert_eq!(external_fate_url("/predict", "reject"), "/reject");
    assert_eq!(external_fate_url("http://h/predict/", "reject"), "http://h/predict/reject");
    assert_eq!(external_fate_url("http://h/predict", "x"), "http://h/x");
    assert_eq!(external_fate_url("http://h//", "x"), external_fate_url("http://h/", "x"));
}

fn status(code: u16, text: &str) -> HttpStatus {
    HttpStatus { code, text: text.to_string() }
}

#[test]
fn fate_is_posted_and_succeeds() {
    let task = FateTask::start(Fate::PartialAccept, "http://h/predict", "p1".to_string());
    match &task {
        FateTask::Post { fate, url, request } => {
            assert_eq!(*fate, Fate::PartialAccept);
            assert_eq!(url, "http://h/partial_accept");
            assert_eq!(request.id, "p1");
        }
        _ => panic!("expected a post"),
    }
    let event = FateEvent::Responded(status(204, "204 No Content"));
    assert!(task.awaits(&event));
    assert!(!task.awaits(&FateEvent::Body(String::new())));
    assert_eq!(task.step(event), FateTask::Finished(Ok(())));
}

#[test]
fn fate_errors_are_reported() {
    let start = || FateTask::start(Fate::Reject, "http://h", "p".to_string());

    match start().step(FateEvent::NotBuilt("bad uri".to_string())) {
        FateTask::Finished(Err(error)) => {
            assert_eq!(error.message, "bad uri");
            assert_eq!(error.cause, None);
        }
        _ => panic!("expected an error"),
    }
    match start().step(FateEvent::NotSent("refused".to_string())) {
        FateTask::Finished(Err(error)) => {
            assert_eq!(
                error.message,
                "failed to send external edit prediction accept request"
            );
            assert_eq!(error.cause, Some("refused".to_string()));
        }
        _ => panic!("expected an error"),
    }
    let reading = start().step(FateEvent::Responded(status(404, "404 Not Found")));
    assert!(reading.awaits(&FateEvent::NotRead(String::new())));
    match reading.step(FateEvent::Body("no such id".to_string())) {
        FateTask::Finished(Err(error)) => assert_eq!(
            error.message,
            "external edit prediction reject server error: 404 Not Found - no such id"
        ),
        _ => panic!("expected an error"),
    }
    let reading = start().step(FateEvent::Responded(status(300, "300 Multiple Choices")));
    match reading.step(FateEvent::NotRead("reset".to_string())) {
        FateTask::Finished(Err(error)) => assert_eq!(error.message, "reset"),
        _ => panic!("expected an error"),
    }
}
