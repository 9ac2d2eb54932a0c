//! What goes over the wire: requests for a prediction and the server's replies.
use crate::json::Json;
use crate::point::ExternalPosition;
use vstd::prelude::*;

verus! {

/// A request for a prediction. The optional parts are left out where they are `None`.
#[derive(Debug, PartialEq, Eq)]
pub struct ExternalEditPredictionRequest {
    pub version: u32,
    pub path: String,
    pub absolute_path: Option<String>,
    pub workspace_root: Option<String>,
    pub language: Option<String>,
    pub contents: String,
    pub cursor: ExternalPosition,
    pub cursor_request: Option<Json>,
}

/// The part of a text from `start` up to `end`.
#[derive(Debug, Clone, Copy, PartialEq, Eq)]
pub struct ExternalRange {
    pub start: ExternalPosition,
    pub end: ExternalPosition,
}

/// The replacement of `range` by `text`, in the file `path` or in the current one.
#[derive(Debug, PartialEq, Eq)]
pub struct ExternalEdit {
    pub path: Option<String>,
    pub range: ExternalRange,
    pub text: String,
}

/// A place to jump to, with the text that is expected there.
#[derive(Debug, PartialEq, Eq)]
pub struct ExternalJump {
    pub path: String,
    pub position: ExternalPosition,
    pub expected_content: Option<String>,
    pub should_retrigger: Option<bool>,
}

/// The reply to a request for a prediction.
#[derive(Debug, PartialEq, Eq)]
pub struct ExternalEditPredictionResponse {
    pub id: Option<String>,
    pub edits: Vec<ExternalEdit>,
    pub jump: Option<ExternalJump>,
}

/// What became of the prediction `id`; which fate it is follows from the address.
#[derive(Debug, PartialEq, Eq)]
pub struct ExternalAcceptRequest {
    pub id: String,
}

} // verus!
