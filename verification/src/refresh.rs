//! Getting a prediction: what has to happen, step by step, between a change of the buffer and
//! the prediction for it.
//!
//! `B`, `S`, `A` and `P` stand for what they stand for in [`crate::prediction`].
use crate::json::string_views;
use crate::jump::point_for_jump;
#[allow(unused_imports)]
use crate::jump::jump_point;
use crate::labels::{lsp_suggested_labels, Completion, LSP_SUGGESTED_ITEMS_TIMEOUT_MS};
#[allow(unused_imports)]
use crate::labels::suggested_labels;
use crate::outcome::{server_error, ExternalError, HttpStatus};
#[allow(unused_imports)]
use crate::outcome::server_error_text;
#[allow(unused_imports)]
use crate::path::optional_text;
use crate::point::Point;
use crate::prediction::{AnchoredEdit, CurrentExternalPrediction};
use crate::request::{build_request, CurrentFile, EditorContext};
#[allow(unused_imports)]
use crate::request::{current_path, is_request};
use crate::text::is_blank;
#[allow(unused_imports)]
use crate::text::trimmed;
use crate::wire::{
    ExternalEdit, ExternalEditPredictionRequest, ExternalEditPredictionResponse, ExternalJump,
};
use vstd::prelude::*;

verus! {

/// How long further changes are waited for, in milliseconds.
pub const DEBOUNCE_MS: u64 = 150;

/// What a prediction is asked for: the address of the server, the buffer, the state of the buffer
/// and the cursor in it.
#[derive(Debug, PartialEq, Eq)]
pub struct Inquiry<B, S, A> {
    pub api_url: String,
    pub buffer: B,
    pub snapshot: S,
    pub cursor: A,
}

/// What the getting of a prediction waits for.
#[derive(Debug, PartialEq, Eq)]
pub enum RefreshTask<B, S, A, P> {
    /// Wait for further changes.
    Debounce { inquiry: Inquiry<B, S, A>, millis: u64 },
    /// Ask for the completions at the cursor, but do not wait for them any longer than this.
    CollectCompletions { inquiry: Inquiry<B, S, A>, timeout_millis: u64 },
    /// Gather what the request is made of besides these suggestions.
    GatherContext { inquiry: Inquiry<B, S, A>, labels: Vec<String> },
    /// Post the request, as JSON, to the address of the server.
    Post { inquiry: Inquiry<B, S, A>, request: ExternalEditPredictionRequest },
    /// Read the body of the reply to the request for `path`.
    ReadBody { inquiry: Inquiry<B, S, A>, path: String, status: HttpStatus },
    /// Parse the body of the reply to the request for `path`.
    Parse { inquiry: Inquiry<B, S, A>, path: String, body: String },
    /// Find the places of the edits in that state of the buffer, and preview the edits.
    PlaceEdits { inquiry: Inquiry<B, S, A>, id: Option<String>, edits: Vec<ExternalEdit> },
    /// Open the file that the jump leads to.
    OpenTarget { id: Option<String>, jump: ExternalJump },
    /// Keep the place in the opened file.
    AnchorTarget { id: Option<String>, point: Point, should_retrigger: bool },
    /// Nothing is left to do.
    Finished(Result<Option<CurrentExternalPrediction<B, S, A, P>>, ExternalError>),
}

/// What happened outside.
#[derive(Debug, PartialEq, Eq)]
pub enum RefreshEvent<S, A, P> {
    /// The wait is over.
    Debounced,
    /// The completions; none where asking failed or took too long.
    Completions(Vec<Completion>),
    /// The file that the buffer shows, its language and contents, the cursor in it, and what
    /// surrounds it.
    Gathered {
        file: Option<CurrentFile>,
        language: Option<String>,
        contents: String,
        cursor: Point,
        context: EditorContext,
    },
    /// The request could not be made.
    NotBuilt(String),
    /// The request could not be sent.
    NotSent(String),
    /// The server replied.
    Responded(HttpStatus),
    /// The body of the reply could not be read.
    NotRead(String),
    /// The body of the reply.
    Body(String),
    /// The body is not a prediction.
    NotParsed(String),
    /// The prediction that the body holds.
    Parsed(ExternalEditPredictionResponse),
    /// The beginning and the end of each edit, in their order.
    Placed { anchors: Vec<(A, A)>, edit_preview: P },
    /// The project has no such file.
    NoTarget,
    /// The file could not be opened.
    NotOpened(String),
    /// What the opened file holds, and the jump's position in it.
    Opened { contents: String, fallback: Point },
    /// The place is kept.
    Anchored { snapshot: S, target: A },
}

/// The edit is one of another file than `path`.
pub open spec fn is_foreign(edit: ExternalEdit, path: Seq<char>) -> bool {
    edit.path is Some && edit.path->0@ != path
}

/// The edit at `k` is the first one of another file than `path`.
pub open spec fn is_first_foreign(edits: Seq<ExternalEdit>, path: Seq<char>, k: int) -> bool {
    &&& 0 <= k < edits.len()
    &&& is_foreign(edits[k], path)
    &&& forall|j: int| 0 <= j < k ==> !is_foreign(#[trigger] edits[j], path)
}

/// All edits are edits of `path`.
pub open spec fn all_local(edits: Seq<ExternalEdit>, path: Seq<char>) -> bool {
    forall|j: int| 0 <= j < edits.len() ==> !is_foreign(#[trigger] edits[j], path)
}

/// The index of the first edit of another file than `path`.
fn first_foreign(edits: &Vec<ExternalEdit>, path: &String) -> (r: Option<usize>)
    ensures
        match r {
            Some(k) => is_first_foreign(edits@, path@, k as int),
            None => all_local(edits@, path@),
        },
{
    let mut k: usize = 0;
    while k < edits.len()
        invariant
            k <= edits@.len(),
            forall|j: int| 0 <= j < k ==> !is_foreign(#[trigger] edits@[j], path@),
        decreases edits@.len() - k,
    {
        if let Some(edit_path) = &edits[k].path {
            if *edit_path != *path {
                return Some(k);
            }
        }
        k += 1;
    }
    None
}

/// The edits have these texts, and begin and end where the anchors say.
pub open spec fn edits_at<A>(
    anchored: Seq<AnchoredEdit<A>>,
    edits: Seq<ExternalEdit>,
    anchors: Seq<(A, A)>,
) -> bool {
    &&& anchored.len() == edits.len()
    &&& forall|i: int|
        0 <= i < anchored.len() ==> (#[trigger] anchored[i]).start == anchors[i].0
            && anchored[i].end == anchors[i].1 && anchored[i].text@ == edits[i].text@
}

/// The edits with the places that were found for them.
fn anchor_edits<A: Copy>(edits: &Vec<ExternalEdit>, anchors: &Vec<(A, A)>) -> (r: Vec<
    AnchoredEdit<A>,
>)
    requires
        edits@.len() == anchors@.len(),
    ensures
        edits_at(r@, edits@, anchors@),
{
    let mut anchored: Vec<AnchoredEdit<A>> = Vec::new();
    let mut i: usize = 0;
    while i < edits.len()
        invariant
            i <= edits@.len(),
            edits@.len() == anchors@.len(),
            edits_at(anchored@, edits@.take(i as int), anchors@),
        decreases edits@.len() - i,
    {
        anchored.push(
            AnchoredEdit { start: anchors[i].0, end: anchors[i].1, text: edits[i].text.clone() },
        );
        i += 1;
    }
    assert(edits@.take(i as int) == edits@);
    anchored
}

impl<B, S, A, P> RefreshTask<B, S, A, P> {
    /// What has to happen next with a prediction for `path`: its first edit of another file leads
    /// there; without one its edits, if it has any, are placed; without edits its jump is followed.
    pub open spec fn begins_placing(
        self,
        inquiry: Inquiry<B, S, A>,
        path: Seq<char>,
        response: ExternalEditPredictionResponse,
    ) -> bool {
        let edits = response.edits@;
        if !all_local(edits, path) {
            exists|k: int|
                {
                    &&& #[trigger] is_first_foreign(edits, path, k)
                    &&& self matches RefreshTask::OpenTarget { id, jump }
                    &&& optional_text(id) == optional_text(response.id)
                    &&& jump.path@ == edits[k].path->0@
                    &&& jump.position == edits[k].range.start
                    &&& jump.expected_content is None
                    &&& jump.should_retrigger == Some(true)
                }
        } else if edits.len() > 0 {
            self == (RefreshTask::<B, S, A, P>::PlaceEdits {
                inquiry,
                id: response.id,
                edits: response.edits,
            })
        } else {
            match response.jump {
                Some(jump) => self == (RefreshTask::<B, S, A, P>::OpenTarget {
                    id: response.id,
                    jump,
                }),
                None => self == RefreshTask::<B, S, A, P>::Finished(Ok(None)),
            }
        }
    }

    /// The task ended with the error `message`.
    pub open spec fn failed(self, message: Seq<char>) -> bool {
        &&& self matches RefreshTask::Finished(Err(error))
        &&& error.says(message)
    }

    /// The task ended with the error `message`, which came from `cause`.
    pub open spec fn failed_because(self, message: Seq<char>, cause: Seq<char>) -> bool {
        &&& self matches RefreshTask::Finished(Err(error))
        &&& error.says_because(message, cause)
    }

    /// The event answers what the task waits for.
    pub open spec fn expects(self, event: RefreshEvent<S, A, P>) -> bool {
        match self {
            RefreshTask::Debounce { .. } => event is Debounced,
            RefreshTask::CollectCompletions { .. } => event is Completions,
            RefreshTask::GatherContext { .. } => event matches RefreshEvent::Gathered {
                context,
                ..
            } && context.fits(),
            RefreshTask::Post { .. } => event is NotBuilt || event is NotSent || event is Responded,
            RefreshTask::ReadBody { .. } => event is NotRead || event is Body,
            RefreshTask::Parse { .. } => event is NotParsed || event is Parsed,
            RefreshTask::PlaceEdits { edits, .. } => event matches RefreshEvent::Placed {
                anchors,
                ..
            } && anchors@.len() == edits@.len(),
            RefreshTask::OpenTarget { .. } => event is NoTarget || event is NotOpened
                || event is Opened,
            RefreshTask::AnchorTarget { .. } => event is Anchored,
            RefreshTask::Finished(_) => false,
        }
    }

    /// `next` is what the task waits for after the event.
    pub open spec fn leads_to(
        self,
        event: RefreshEvent<S, A, P>,
        next: RefreshTask<B, S, A, P>,
    ) -> bool {
        match (self, event) {
            (RefreshTask::Debounce { inquiry, .. }, RefreshEvent::Debounced) => next
                == RefreshTask::<B, S, A, P>::first(inquiry, false),
            (
                RefreshTask::CollectCompletions { inquiry, .. },
                RefreshEvent::Completions(completions),
            ) => {
                &&& next matches RefreshTask::GatherContext { inquiry: same, labels }
                &&& same == inquiry
                &&& string_views(labels@) == suggested_labels(completions@)
            },
            (
                RefreshTask::GatherContext { inquiry, labels },
                RefreshEvent::Gathered { file, language, contents, cursor, context },
            ) => {
                &&& next matches RefreshTask::Post { inquiry: same, request }
                &&& same == inquiry
                &&& is_request(
                    request,
                    file,
                    optional_text(language),
                    contents@,
                    cursor,
                    string_views(labels@),
                    context,
                )
            },
            (RefreshTask::Post { .. }, RefreshEvent::NotBuilt(reason)) => next.failed(reason@),
            (RefreshTask::Post { .. }, RefreshEvent::NotSent(reason)) => next.failed_because(
                "failed to send external edit prediction request"@,
                reason@,
            ),
            (RefreshTask::Post { inquiry, request }, RefreshEvent::Responded(status)) => next == (
            RefreshTask::<B, S, A, P>::ReadBody { inquiry, path: request.path, status }),
            (RefreshTask::ReadBody { .. }, RefreshEvent::NotRead(reason)) => next.failed(reason@),
            (RefreshTask::ReadBody { inquiry, path, status }, RefreshEvent::Body(body)) => {
                if !status.succeeded() {
                    next.failed(server_error_text(""@, status.text@, body@))
                } else if trimmed(body@).len() == 0 {
                    next == RefreshTask::<B, S, A, P>::Finished(Ok(None))
                } else {
                    next == (RefreshTask::<B, S, A, P>::Parse { inquiry, path, body })
                }
            },
            (RefreshTask::Parse { .. }, RefreshEvent::NotParsed(reason)) => next.failed_because(
                "failed to parse external edit prediction"@,
                reason@,
            ),
            (RefreshTask::Parse { inquiry, path, .. }, RefreshEvent::Parsed(response)) => {
                next.begins_placing(inquiry, path@, response)
            },
            (
                RefreshTask::PlaceEdits { inquiry, id, edits },
                RefreshEvent::Placed { anchors, edit_preview },
            ) => {
                &&& next matches RefreshTask::Finished(
                    Ok(
                        Some(
                            CurrentExternalPrediction::Local {
                                id: local_id,
                                buffer,
                                snapshot,
                                edits: local_edits,
                                edit_preview: local_preview,
                            },
                        ),
                    ),
                )
                &&& local_id == id
                &&& buffer == inquiry.buffer
                &&& snapshot == inquiry.snapshot
                &&& edits_at(local_edits@, edits@, anchors@)
                &&& local_preview == edit_preview
            },
            (RefreshTask::OpenTarget { .. }, RefreshEvent::NoTarget) => next == RefreshTask::<
                B,
                S,
                A,
                P,
            >::Finished(Ok(None)),
            (RefreshTask::OpenTarget { .. }, RefreshEvent::NotOpened(reason)) => next.failed(reason@),
            (RefreshTask::OpenTarget { id, jump }, RefreshEvent::Opened { contents, fallback }) => next
                == (RefreshTask::<B, S, A, P>::AnchorTarget {
                id,
                point: jump_point(contents@, fallback, optional_text(jump.expected_content)),
                should_retrigger: jump.should_retrigger == Some(true),
            }),
            (
                RefreshTask::AnchorTarget { id, should_retrigger, .. },
                RefreshEvent::Anchored { snapshot, target },
            ) => next == RefreshTask::<B, S, A, P>::Finished(
                Ok(Some(CurrentExternalPrediction::Jump { id, snapshot, target, should_retrigger })),
            ),
            _ => false,
        }
    }

    /// How many more answers can come.
    pub open spec fn remaining(self) -> nat {
        match self {
            RefreshTask::Debounce { .. } => 8,
            RefreshTask::CollectCompletions { .. } => 7,
            RefreshTask::GatherContext { .. } => 6,
            RefreshTask::Post { .. } => 5,
            RefreshTask::ReadBody { .. } => 4,
            RefreshTask::Parse { .. } => 3,
            RefreshTask::PlaceEdits { .. } => 1,
            RefreshTask::OpenTarget { .. } => 2,
            RefreshTask::AnchorTarget { .. } => 1,
            RefreshTask::Finished(_) => 0,
        }
    }

    /// The first thing to wait for.
    pub open spec fn first(inquiry: Inquiry<B, S, A>, debounce: bool) -> RefreshTask<B, S, A, P> {
        if debounce {
            RefreshTask::Debounce { inquiry, millis: DEBOUNCE_MS }
        } else {
            RefreshTask::CollectCompletions {
                inquiry,
                timeout_millis: LSP_SUGGESTED_ITEMS_TIMEOUT_MS,
            }
        }
    }

    /// The first thing to wait for.
    pub fn start(inquiry: Inquiry<B, S, A>, debounce: bool) -> (r: RefreshTask<B, S, A, P>)
        ensures
            r == RefreshTask::<B, S, A, P>::first(inquiry, debounce),
    {
        if debounce {
            RefreshTask::Debounce { inquiry, millis: DEBOUNCE_MS }
        } else {
            RefreshTask::CollectCompletions {
                inquiry,
                timeout_millis: LSP_SUGGESTED_ITEMS_TIMEOUT_MS,
            }
        }
    }

    /// Whether the event answers what the task waits for.
    pub fn awaits(&self, event: &RefreshEvent<S, A, P>) -> (r: bool)
        ensures
            r == self.expects(*event),
    {
        match (self, event) {
            (RefreshTask::Debounce { .. }, RefreshEvent::Debounced) => true,
            (RefreshTask::CollectCompletions { .. }, RefreshEvent::Completions(_)) => true,
            (RefreshTask::GatherContext { .. }, RefreshEvent::Gathered { context, .. }) => {
                context.check()
            },
            (RefreshTask::Post { .. }, RefreshEvent::NotBuilt(_)) => true,
            (RefreshTask::Post { .. }, RefreshEvent::NotSent(_)) => true,
            (RefreshTask::Post { .. }, RefreshEvent::Responded(_)) => true,
            (RefreshTask::ReadBody { .. }, RefreshEvent::NotRead(_)) => true,
            (RefreshTask::ReadBody { .. }, RefreshEvent::Body(_)) => true,
            (RefreshTask::Parse { .. }, RefreshEvent::NotParsed(_)) => true,
            (RefreshTask::Parse { .. }, RefreshEvent::Parsed(_)) => true,
            (RefreshTask::PlaceEdits { edits, .. }, RefreshEvent::Placed { anchors, .. }) => {
                anchors.len() == edits.len()
            },
            (RefreshTask::OpenTarget { .. }, RefreshEvent::NoTarget) => true,
            (RefreshTask::OpenTarget { .. }, RefreshEvent::NotOpened(_)) => true,
            (RefreshTask::OpenTarget { .. }, RefreshEvent::Opened { .. }) => true,
            (RefreshTask::AnchorTarget { .. }, RefreshEvent::Anchored { .. }) => true,
            _ => false,
        }
    }

    /// What has to happen next with a prediction for `path`.
    pub fn prediction_from_response(
        inquiry: Inquiry<B, S, A>,
        path: &String,
        response: ExternalEditPredictionResponse,
    ) -> (r: RefreshTask<B, S, A, P>)
        ensures
            r.begins_placing(inquiry, path@, response),
    {
        let id = response.id;
        let mut edits = response.edits;
        match first_foreign(&edits, path) {
            Some(k) => {
                assert(is_first_foreign(edits@, path@, k as int));
                assert(is_foreign(edits@[k as int], path@));
                let edit = edits.swap_remove(k);
                let target: String = match edit.path {
                    Some(target) => target,
                    None => String::new(),
                };
                RefreshTask::OpenTarget {
                    id,
                    jump: ExternalJump {
                        path: target,
                        position: edit.range.start,
                        expected_content: None,
                        should_retrigger: Some(true),
                    },
                }
            },
            None => {
                if edits.len() > 0 {
                    RefreshTask::PlaceEdits { inquiry, id, edits }
                } else {
                    match response.jump {
                        Some(jump) => RefreshTask::OpenTarget { id, jump },
                        None => RefreshTask::Finished(Ok(None)),
                    }
                }
            },
        }
    }
}

impl<B, S, A: Copy, P> RefreshTask<B, S, A, P> {
    /// What the task waits for after the event.
    pub fn step(self, event: RefreshEvent<S, A, P>) -> (r: RefreshTask<B, S, A, P>)
        requires
            self.expects(event),
        ensures
            self.leads_to(event, r),
            self matches RefreshTask::PlaceEdits { edits, .. } ==> (
            event matches RefreshEvent::Placed { anchors, .. } ==> (r matches RefreshTask::Finished(
                Ok(Some(CurrentExternalPrediction::Local { edits: local, .. })),
            ) && local@.len() == edits@.len() && forall|i: int|
                0 <= i < local@.len() ==> (#[trigger] local@[i]).text@ == edits@[i].text@
                    && local@[i].start == anchors@[i].0 && local@[i].end == anchors@[i].1)),
    {
        match (self, event) {
            (RefreshTask::Debounce { inquiry, .. }, _) => RefreshTask::start(inquiry, false),
            (
                RefreshTask::CollectCompletions { inquiry, .. },
                RefreshEvent::Completions(completions),
            ) => RefreshTask::GatherContext {
                inquiry,
                labels: lsp_suggested_labels(completions.as_slice()),
            },
            (
                RefreshTask::GatherContext { inquiry, labels },
                RefreshEvent::Gathered { file, language, contents, cursor, context },
            ) => {
                let request = build_request(
                    file,
                    language,
                    contents,
                    cursor,
                    labels.as_slice(),
                    &context,
                );
                RefreshTask::Post { inquiry, request }
            },
            (_, RefreshEvent::NotBuilt(reason)) => RefreshTask::Finished(
                Err(ExternalError::new(reason)),
            ),
            (_, RefreshEvent::NotSent(reason)) => RefreshTask::Finished(
                Err(
                    ExternalError::because(
                        "failed to send external edit prediction request",
                        reason,
                    ),
                ),
            ),
            (RefreshTask::Post { inquiry, request }, RefreshEvent::Responded(status)) => {
                RefreshTask::ReadBody { inquiry, path: request.path, status }
            },
            (_, RefreshEvent::NotRead(reason)) => RefreshTask::Finished(
                Err(ExternalError::new(reason)),
            ),
            (RefreshTask::ReadBody { inquiry, path, status }, RefreshEvent::Body(body)) => {
                if !status.is_success() {
                    RefreshTask::Finished(
                        Err(server_error("", status.text.as_str(), body.as_str())),
                    )
                } else if is_blank(body.as_str()) {
                    RefreshTask::Finished(Ok(None))
                } else {
                    RefreshTask::Parse { inquiry, path, body }
                }
            },
            (_, RefreshEvent::NotParsed(reason)) => RefreshTask::Finished(
                Err(ExternalError::because("failed to parse external edit prediction", reason)),
            ),
            (RefreshTask::Parse { inquiry, path, .. }, RefreshEvent::Parsed(response)) => {
                Self::prediction_from_response(inquiry, &path, response)
            },
            (
                RefreshTask::PlaceEdits { inquiry, id, edits },
                RefreshEvent::Placed { anchors, edit_preview },
            ) => {
                let anchored = anchor_edits(&edits, &anchors);
                RefreshTask::Finished(
                    Ok(
                        Some(
                            CurrentExternalPrediction::Local {
                                id,
                                buffer: inquiry.buffer,
                                snapshot: inquiry.snapshot,
                                edits: anchored,
                                edit_preview,
                            },
                        ),
                    ),
                )
            },
            (_, RefreshEvent::NoTarget) => RefreshTask::Finished(Ok(None)),
            (_, RefreshEvent::NotOpened(reason)) => RefreshTask::Finished(
                Err(ExternalError::new(reason)),
            ),
            (RefreshTask::OpenTarget { id, jump }, RefreshEvent::Opened { contents, fallback }) => {
                let point = point_for_jump(contents.as_str(), fallback, &jump);
                let should_retrigger = match jump.should_retrigger {
                    Some(retrigger) => retrigger,
                    None => false,
                };
                RefreshTask::AnchorTarget { id, point, should_retrigger }
            },
            (
                RefreshTask::AnchorTarget { id, should_retrigger, .. },
                RefreshEvent::Anchored { snapshot, target },
            ) => RefreshTask::Finished(
                Ok(Some(CurrentExternalPrediction::Jump { id, snapshot, target, should_retrigger })),
            ),
            (task, _) => task,
        }
    }
}

/// Every answer brings the task nearer to its end, so that a prediction is there, or known to
/// be missing, after a few answers.
pub proof fn law_refresh_ends<B, S, A, P>(
    task: RefreshTask<B, S, A, P>,
    event: RefreshEvent<S, A, P>,
    next: RefreshTask<B, S, A, P>,
)
    requires
        task.leads_to(event, next),
    ensures
        next.remaining() < task.remaining(),
        task.remaining() <= 8,
{
}

/// The request that is posted goes to the address that was given, carries the suggestions that the
/// completions came to, and its path is the one by which the edits of the reply are told apart.
pub proof fn law_reply_is_read_for_its_request<B, S, A, P>(
    collect: RefreshTask<B, S, A, P>,
    completions: Vec<Completion>,
    gather: RefreshTask<B, S, A, P>,
    file: Option<CurrentFile>,
    language: Option<String>,
    contents: String,
    cursor: Point,
    context: EditorContext,
    post: RefreshTask<B, S, A, P>,
    status: HttpStatus,
    read: RefreshTask<B, S, A, P>,
    body: String,
    parse: RefreshTask<B, S, A, P>,
)
    requires
        collect is CollectCompletions,
        collect.leads_to(RefreshEvent::Completions(completions), gather),
        gather.leads_to(
            RefreshEvent::Gathered { file, language, contents, cursor, context },
            post,
        ),
        post.leads_to(RefreshEvent::Responded(status), read),
        read.leads_to(RefreshEvent::Body(body), parse),
        parse is Parse,
    ensures
        post is Post,
        post->Post_inquiry == collect->CollectCompletions_inquiry,
        is_request(
            post->request,
            file,
            optional_text(language),
            contents@,
            cursor,
            suggested_labels(completions@),
            context,
        ),
        parse->Parse_inquiry == collect->CollectCompletions_inquiry,
        parse->Parse_path == post->request.path,
        parse->Parse_path@ == current_path(file),
{
}

/// A reply whose edits are all edits of the file that was asked for becomes a prediction of just
/// these edits, in their order and under the name that the reply gave it, for the buffer and the
/// state of it that were asked for; its jump is not followed.
pub proof fn law_edits_become_local_prediction<B, S, A, P>(
    parse: RefreshTask<B, S, A, P>,
    response: ExternalEditPredictionResponse,
    place: RefreshTask<B, S, A, P>,
    placed: RefreshEvent<S, A, P>,
    end: RefreshTask<B, S, A, P>,
)
    requires
        parse is Parse,
        parse.leads_to(RefreshEvent::Parsed(response), place),
        all_local(response.edits@, parse->Parse_path@),
        response.edits@.len() > 0,
        placed is Placed,
        place.leads_to(placed, end),
    ensures
        end matches RefreshTask::Finished(Ok(Some(prediction))) && prediction is Local
            && prediction.id_text() == optional_text(response.id) && prediction->buffer
            == parse->Parse_inquiry.buffer && prediction->Local_snapshot
            == parse->Parse_inquiry.snapshot && edits_at(
            prediction->edits@,
            response.edits@,
            placed->anchors@,
        ) && prediction->edits@.len() == response.edits@.len() && forall|i: int|
            0 <= i < response.edits@.len() ==> (#[trigger] prediction->edits@[i]).text@
                == response.edits@[i].text@ && prediction->edits@[i].start == placed->anchors@[i].0
                && prediction->edits@[i].end == placed->anchors@[i].1,
{
}

/// A reply with an edit of another file becomes a jump to where the first such edit begins, and
/// asks for a prediction there.
pub proof fn law_edit_elsewhere_becomes_jump<B, S, A, P>(
    parse: RefreshTask<B, S, A, P>,
    response: ExternalEditPredictionResponse,
    open: RefreshTask<B, S, A, P>,
    k: int,
    contents: String,
    fallback: Point,
    anchor: RefreshTask<B, S, A, P>,
    snapshot: S,
    target: A,
    end: RefreshTask<B, S, A, P>,
)
    requires
        parse is Parse,
        is_first_foreign(response.edits@, parse->Parse_path@, k),
        parse.leads_to(RefreshEvent::Parsed(response), open),
        open.leads_to(RefreshEvent::Opened { contents, fallback }, anchor),
        anchor.leads_to(RefreshEvent::Anchored { snapshot, target }, end),
    ensures
        open is OpenTarget,
        open->jump.path@ == response.edits@[k].path->0@,
        open->jump.position == response.edits@[k].range.start,
        anchor is AnchorTarget,
        anchor->point == fallback,
        end matches RefreshTask::Finished(
            Ok(
                Some(
                    CurrentExternalPrediction::Jump {
                        id,
                        snapshot: kept,
                        target: place,
                        should_retrigger,
                    },
                ),
            ),
        ) && optional_text(id) == optional_text(response.id) && kept == snapshot && place == target
            && should_retrigger,
{
    let edits = response.edits@;
    let path = parse->Parse_path@;
    assert(is_foreign(edits[k], path));
    let first = choose|i: int|
        #[trigger] is_first_foreign(edits, path, i) && open->jump.path@ == edits[i].path->0@
            && open->jump.position == edits[i].range.start;
    assert(is_foreign(edits[first], path));
    assert(first == k);
}

/// A reply without edits becomes the jump that it holds: to where the expected text was found,
/// under the name that the reply gave it, and asking for a prediction there just if the reply
/// says so.
pub proof fn law_jump_is_followed<B, S, A, P>(
    parse: RefreshTask<B, S, A, P>,
    response: ExternalEditPredictionResponse,
    open: RefreshTask<B, S, A, P>,
    contents: String,
    fallback: Point,
    anchor: RefreshTask<B, S, A, P>,
    snapshot: S,
    target: A,
    end: RefreshTask<B, S, A, P>,
)
    requires
        parse is Parse,
        response.edits@.len() == 0,
        response.jump is Some,
        parse.leads_to(RefreshEvent::Parsed(response), open),
        open.leads_to(RefreshEvent::Opened { contents, fallback }, anchor),
        anchor.leads_to(RefreshEvent::Anchored { snapshot, target }, end),
    ensures
        open is OpenTarget,
        open->jump == response.jump->0,
        anchor is AnchorTarget,
        anchor->point == jump_point(
            contents@,
            fallback,
            optional_text(response.jump->0.expected_content),
        ),
        end == RefreshTask::<B, S, A, P>::Finished(
            Ok(
                Some(
                    CurrentExternalPrediction::Jump {
                        id: response.id,
                        snapshot,
                        target,
                        should_retrigger: response.jump->0.should_retrigger == Some(true),
                    },
                ),
            ),
        ),
{
}

/// A reply that is not a success never becomes a prediction: it ends in an error, which names the
/// status and the body where that could be read.
pub proof fn law_refused_request_fails<B, S, A, P>(
    read: RefreshTask<B, S, A, P>,
    event: RefreshEvent<S, A, P>,
    next: RefreshTask<B, S, A, P>,
)
    requires
        read is ReadBody,
        !read->status.succeeded(),
        read.leads_to(event, next),
    ensures
        next matches RefreshTask::Finished(Err(_)),
        event matches RefreshEvent::Body(body) ==> next.failed(
            server_error_text(""@, read->status.text@, body@),
        ),
{
}

/// What becomes of a reply to the request for `path`: its first edit that names another file becomes
/// a jump to where that edit begins, which asks for a prediction there; edits that name no file or
/// this one are placed, all of them, in the state of the buffer that was asked for; without edits
/// its jump is followed, and without a jump there is no prediction.
pub proof fn law_reply_is_followed<B, S, A, P>(
    next: RefreshTask<B, S, A, P>,
    inquiry: Inquiry<B, S, A>,
    path: Seq<char>,
    response: ExternalEditPredictionResponse,
    k: int,
)
    requires
        next.begins_placing(inquiry, path, response),
    ensures
        0 <= k < response.edits@.len() && response.edits@[k].path is Some
            && response.edits@[k].path->0@ != path && (forall|j: int|
            0 <= j < k ==> (#[trigger] response.edits@[j]).path is None
                || response.edits@[j].path->0@ == path) ==> (next matches RefreshTask::OpenTarget {
            id,
            jump,
        } && optional_text(id) == optional_text(response.id) && jump.path@
            == response.edits@[k].path->0@ && jump.position.line
            == response.edits@[k].range.start.line && jump.position.column
            == response.edits@[k].range.start.column && jump.expected_content is None
            && jump.should_retrigger == Some(true)),
        response.edits@.len() > 0 && (forall|j: int|
            0 <= j < response.edits@.len() ==> (#[trigger] response.edits@[j]).path is None
                || response.edits@[j].path->0@ == path) ==> next == (RefreshTask::<
            B,
            S,
            A,
            P,
        >::PlaceEdits { inquiry, id: response.id, edits: response.edits }),
        response.edits@.len() == 0 ==> match response.jump {
            Some(jump) => next == (RefreshTask::<B, S, A, P>::OpenTarget { id: response.id, jump }),
            None => next == RefreshTask::<B, S, A, P>::Finished(Ok(None)),
        },
{
    let edits = response.edits@;
    if 0 <= k < edits.len() && edits[k].path is Some && edits[k].path->0@ != path && (forall|j: int|
        0 <= j < k ==> (#[trigger] edits[j]).path is None || edits[j].path->0@ == path) {
        assert(is_foreign(edits[k], path));
        assert(is_first_foreign(edits, path, k));
        let first = choose|i: int|
            #[trigger] is_first_foreign(edits, path, i) && next->jump.path@ == edits[i].path->0@
                && next->jump.position == edits[i].range.start;
        assert(is_foreign(edits[first], path));
        assert(first == k);
    }
}

/// What each answer leads to on the way to the reply: after 150 milliseconds, or at once, the
/// completions are waited for, for 120 milliseconds; then the request is made and posted; the body
/// of the reply is read; one that is white space is no prediction, and any other is parsed. All of
/// it is for one and the same inquiry.
pub proof fn law_way_to_the_reply<B, S, A, P>(
    task: RefreshTask<B, S, A, P>,
    event: RefreshEvent<S, A, P>,
    next: RefreshTask<B, S, A, P>,
    asked: Inquiry<B, S, A>,
)
    requires
        task.leads_to(event, next),
    ensures
        RefreshTask::<B, S, A, P>::first(asked, true) == (RefreshTask::<B, S, A, P>::Debounce {
            inquiry: asked,
            millis: 150,
        }),
        RefreshTask::<B, S, A, P>::first(asked, false) == (RefreshTask::<
            B,
            S,
            A,
            P,
        >::CollectCompletions { inquiry: asked, timeout_millis: 120 }),
        task matches RefreshTask::Debounce { inquiry, .. } ==> event is Debounced && next == (
        RefreshTask::<B, S, A, P>::CollectCompletions { inquiry, timeout_millis: 120 }),
        task matches RefreshTask::CollectCompletions { inquiry, .. } ==> (
        event matches RefreshEvent::Completions(completions)
            && next matches RefreshTask::GatherContext { inquiry: same, labels } && same == inquiry
            && string_views(labels@) == suggested_labels(completions@)),
        task matches RefreshTask::GatherContext { inquiry, labels } ==> (
        event matches RefreshEvent::Gathered { file, language, contents, cursor, context }
            && next matches RefreshTask::Post { inquiry: same, request } && same == inquiry
            && is_request(
            request,
            file,
            optional_text(language),
            contents@,
            cursor,
            string_views(labels@),
            context,
        )),
        task matches RefreshTask::Post { inquiry, request } ==> (
        event matches RefreshEvent::Responded(status) ==> next == (RefreshTask::<
            B,
            S,
            A,
            P,
        >::ReadBody { inquiry, path: request.path, status })),
        task matches RefreshTask::ReadBody { inquiry, path, status } ==> (
        event matches RefreshEvent::Body(body) ==> (200 <= status.code < 300 ==> (trimmed(body@).len()
            == 0 ==> next == RefreshTask::<B, S, A, P>::Finished(Ok(None))) && (trimmed(body@).len()
            > 0 ==> next == (RefreshTask::<B, S, A, P>::Parse { inquiry, path, body })))),
        task matches RefreshTask::Parse { inquiry, path, .. } ==> (
        event matches RefreshEvent::Parsed(response) ==> next.begins_placing(
            inquiry,
            path@,
            response,
        )),
{
}

/// What each answer leads to on the way to a jump: a file that the project does not have is no
/// prediction; in one that was opened the place is looked for around the jump's position, and kept
/// with the name of the prediction and with whether it asks for one there.
pub proof fn law_way_to_the_jump<B, S, A, P>(
    task: RefreshTask<B, S, A, P>,
    event: RefreshEvent<S, A, P>,
    next: RefreshTask<B, S, A, P>,
)
    requires
        task.leads_to(event, next),
    ensures
        task is OpenTarget && event is NoTarget ==> next == RefreshTask::<B, S, A, P>::Finished(
            Ok(None),
        ),
        task matches RefreshTask::OpenTarget { id, jump } ==> (event matches RefreshEvent::Opened {
            contents,
            fallback,
        } ==> next == (RefreshTask::<B, S, A, P>::AnchorTarget {
            id,
            point: jump_point(contents@, fallback, optional_text(jump.expected_content)),
            should_retrigger: jump.should_retrigger is Some && jump.should_retrigger->0,
        })),
        task matches RefreshTask::AnchorTarget { id, should_retrigger, .. } ==> (
        event matches RefreshEvent::Anchored { snapshot, target }
            && next matches RefreshTask::Finished(
            Ok(
                Some(
                    CurrentExternalPrediction::Jump {
                        id: kept,
                        snapshot: kept_snapshot,
                        target: kept_target,
                        should_retrigger: retrigger,
                    },
                ),
            ),
        ) && kept == id && kept_snapshot == snapshot && kept_target == target && retrigger
            == should_retrigger),
{
}

/// A local prediction is for the buffer and the state of it that were asked for, under the name that
/// the reply gave it and with the preview that was made, and each of its edits has the text, and
/// stands at the place, of the edit that was placed.
pub proof fn law_edits_are_placed_whole<B, S, A, P>(
    task: RefreshTask<B, S, A, P>,
    event: RefreshEvent<S, A, P>,
    next: RefreshTask<B, S, A, P>,
    i: int,
)
    requires
        task is PlaceEdits,
        task.leads_to(event, next),
    ensures
        event matches RefreshEvent::Placed { anchors, edit_preview: made }
            && next matches RefreshTask::Finished(
            Ok(
                Some(
                    CurrentExternalPrediction::Local { id, buffer, snapshot, edits, edit_preview },
                ),
            ),
        ) && id == task->PlaceEdits_id && buffer == task->PlaceEdits_inquiry.buffer && snapshot
            == task->PlaceEdits_inquiry.snapshot && edit_preview == made && edits@.len()
            == task->edits@.len() && (0 <= i < edits@.len() ==> edits@[i].text@
            == task->edits@[i].text@ && edits@[i].start == anchors@[i].0 && edits@[i].end
            == anchors@[i].1),
{
}

/// What is reported where getting a prediction failed: why the request could not be made, sent, its
/// reply read or parsed, or the file opened, and for an unsuccessful reply its status and body.
pub proof fn law_refresh_errors<B, S, A, P>(
    task: RefreshTask<B, S, A, P>,
    event: RefreshEvent<S, A, P>,
    next: RefreshTask<B, S, A, P>,
)
    requires
        task.leads_to(event, next),
    ensures
        event matches RefreshEvent::NotBuilt(reason) ==> (next matches RefreshTask::Finished(
            Err(error),
        ) && error.message@ == reason@ && error.cause is None),
        event matches RefreshEvent::NotSent(reason) ==> (next matches RefreshTask::Finished(
            Err(error),
        ) && error.message@ == "failed to send external edit prediction request"@
            && error.cause is Some && error.cause->0@ == reason@),
        event matches RefreshEvent::NotRead(reason) ==> (next matches RefreshTask::Finished(
            Err(error),
        ) && error.message@ == reason@ && error.cause is None),
        event matches RefreshEvent::NotParsed(reason) ==> (next matches RefreshTask::Finished(
            Err(error),
        ) && error.message@ == "failed to parse external edit prediction"@ && error.cause is Some
            && error.cause->0@ == reason@),
        event matches RefreshEvent::NotOpened(reason) ==> (next matches RefreshTask::Finished(
            Err(error),
        ) && error.message@ == reason@ && error.cause is None),
        task matches RefreshTask::ReadBody { status, .. } ==> (
        event matches RefreshEvent::Body(body) ==> (status.code < 200 || status.code >= 300) ==> (
        next matches RefreshTask::Finished(Err(error)) && error.cause is None && error.message@
            == "external edit prediction "@ + ""@ + "server error: "@ + status.text@ + " - "@
            + body@)),
{
}

/// Which answers each step waits for: the step's own outcome or its failure, a context whose rows
/// can be sent, and a place for each edit; nothing else is an answer.
pub proof fn law_refresh_answers<B, S, A, P>(
    task: RefreshTask<B, S, A, P>,
    event: RefreshEvent<S, A, P>,
)
    ensures
        event is Debounced ==> (task.expects(event) <==> task is Debounce),
        event is Completions ==> (task.expects(event) <==> task is CollectCompletions),
        event matches RefreshEvent::Gathered { context, .. } ==> (task.expects(event) <==> task
            is GatherContext && context.fits()),
        event is NotBuilt || event is NotSent || event is Responded ==> (task.expects(event) <==> task
            is Post),
        event is NotRead || event is Body ==> (task.expects(event) <==> task is ReadBody),
        event is NotParsed || event is Parsed ==> (task.expects(event) <==> task is Parse),
        event matches RefreshEvent::Placed { anchors, .. } ==> (task.expects(event) <==> task
            is PlaceEdits && anchors@.len() == task->edits@.len()),
        event is NoTarget || event is NotOpened || event is Opened ==> (task.expects(event) <==> task
            is OpenTarget),
        event is Anchored ==> (task.expects(event) <==> task is AnchorTarget),
{
}

} // verus!
