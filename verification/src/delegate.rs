//! The provider of predictions: which prediction is shown, and which request is under way.
//!
//! `B`, `S`, `A` and `P` stand for what they stand for in [`crate::prediction`].
use crate::fate::{Fate, FateTask};
use crate::outcome::ExternalError;
use crate::prediction::{
    edit_prediction_from_current_prediction, AnchoredEdit, CurrentExternalPrediction,
    EditPrediction,
};
#[allow(unused_imports)]
use crate::prediction::shows;
use crate::refresh::{Inquiry, RefreshTask};
use vstd::prelude::*;

verus! {

/// The provider of predictions.
#[derive(Debug, PartialEq, Eq)]
pub struct ExternalEditPredictionDelegate<B, S, A, P> {
    pending_request: Option<u64>,
    current_prediction: Option<CurrentExternalPrediction<B, S, A, P>>,
    next_request_id: u64,
}

/// What an [`ExternalEditPredictionDelegate`] holds.
pub struct DelegateView<B, S, A, P> {
    /// The number of the request that is under way.
    pub pending_request: Option<u64>,
    /// The prediction to show.
    pub current_prediction: Option<CurrentExternalPrediction<B, S, A, P>>,
    /// The number of the latest request.
    pub next_request_id: u64,
}

impl<B, S, A, P> View for ExternalEditPredictionDelegate<B, S, A, P> {
    type V = DelegateView<B, S, A, P>;

    closed spec fn view(&self) -> DelegateView<B, S, A, P> {
        DelegateView {
            pending_request: self.pending_request,
            current_prediction: self.current_prediction,
            next_request_id: self.next_request_id,
        }
    }
}

/// What a fate of the current prediction asks for: a report, if the prediction has a name.
pub open spec fn reports<B, S, A, P>(
    current: Option<CurrentExternalPrediction<B, S, A, P>>,
    fate: Fate,
    api_url: Seq<char>,
    task: Option<FateTask>,
) -> bool {
    match current {
        Some(prediction) => match prediction.id_text() {
            Some(id) => task is Some && task->0.posts(fate, api_url, id),
            None => task is None,
        },
        None => task is None,
    }
}

impl<B, S, A, P> DelegateView<B, S, A, P> {
    /// Only the latest request can be under way.
    pub open spec fn wf(self) -> bool {
        self.pending_request is Some ==> self.pending_request->0 == self.next_request_id
    }

    /// The number that follows that of the latest request.
    pub open spec fn following_id(self) -> u64 {
        if self.next_request_id == u64::MAX {
            0
        } else {
            (self.next_request_id + 1) as u64
        }
    }

    /// The edits that are shown still apply, so that no request is needed.
    pub open spec fn still_applies(self, interpolates: bool) -> bool {
        self.current_prediction is Some && self.current_prediction->0 is Local && interpolates
    }

    /// A request has been begun; one that was under way is dropped.
    pub open spec fn requesting(self) -> DelegateView<B, S, A, P> {
        DelegateView {
            pending_request: Some(self.following_id()),
            current_prediction: self.current_prediction,
            next_request_id: self.following_id(),
        }
    }

    /// The request `request_id` came to `result`: that counts only while the request is under
    /// way, and a failure changes nothing.
    pub open spec fn answered(
        self,
        request_id: u64,
        result: Result<Option<CurrentExternalPrediction<B, S, A, P>>, ExternalError>,
    ) -> DelegateView<B, S, A, P> {
        match result {
            Ok(prediction) if self.pending_request == Some(request_id) => DelegateView {
                pending_request: None,
                current_prediction: prediction,
                next_request_id: self.next_request_id,
            },
            _ => self,
        }
    }

    /// No prediction is shown, and no request is under way.
    pub open spec fn cleared(self) -> DelegateView<B, S, A, P> {
        DelegateView {
            pending_request: None,
            current_prediction: None,
            next_request_id: self.next_request_id,
        }
    }

    /// A request is under way and no prediction is shown.
    pub open spec fn refreshing(self) -> bool {
        self.pending_request is Some && self.current_prediction is None
    }
}

/// What an acceptance asks for: to report it, and to add the imports that the edits need.
#[derive(Debug, PartialEq, Eq)]
pub struct Acceptance<B, A> {
    pub report: Option<FateTask>,
    pub quick_fix: Option<(B, Vec<AnchoredEdit<A>>)>,
}

impl<B, S, A, P> ExternalEditPredictionDelegate<B, S, A, P> {
    /// Only the latest request can be under way.
    #[verifier::type_invariant]
    spec fn only_latest_pending(self) -> bool {
        self@.wf()
    }

    /// A provider that shows no prediction.
    pub fn new() -> (r: Self)
        ensures
            r@.wf(),
            r@ == (DelegateView::<B, S, A, P> {
                pending_request: None,
                current_prediction: None,
                next_request_id: 0,
            }),
    {
        ExternalEditPredictionDelegate {
            pending_request: None,
            current_prediction: None,
            next_request_id: 0,
        }
    }

    /// The name of the provider.
    pub fn name() -> (r: &'static str)
        ensures
            r@ == "external"@,
    {
        "external"
    }

    /// The name under which the provider is shown.
    pub fn display_name() -> (r: &'static str)
        ensures
            r@ == "External Edit Prediction"@,
    {
        "External Edit Prediction"
    }

    /// Whether predictions are shown in the menu.
    pub fn show_predictions_in_menu() -> (r: bool)
        ensures
            r,
    {
        true
    }

    /// Whether the key that accepts is shown.
    pub fn show_tab_accept_marker() -> (r: bool)
        ensures
            r,
    {
        true
    }

    /// Whether predictions are made; they are, in every buffer.
    pub fn is_enabled(&self) -> (r: bool)
        ensures
            r,
    {
        true
    }

    /// Whether a request is under way and no prediction is shown.
    pub fn is_refreshing(&self) -> (r: bool)
        ensures
            r == self@.refreshing(),
    {
        self.pending_request.is_some() && self.current_prediction.is_none()
    }

    /// The prediction to show.
    pub fn current_prediction(&self) -> (r: Option<&CurrentExternalPrediction<B, S, A, P>>)
        ensures
            match r {
                Some(prediction) => self@.current_prediction == Some(*prediction),
                None => self@.current_prediction is None,
            },
    {
        self.current_prediction.as_ref()
    }

    /// Whether the request is under way.
    pub fn is_pending(&self, request_id: u64) -> (r: bool)
        ensures
            r == (self@.pending_request == Some(request_id)),
    {
        match self.pending_request {
            Some(id) => id == request_id,
            None => false,
        }
    }

    /// Begins a request, unless the edits that are shown still apply to the buffer, which is what
    /// `interpolates` says. Gives the number of the request and what it waits for first.
    pub fn refresh(
        &mut self,
        interpolates: bool,
        inquiry: Inquiry<B, S, A>,
        debounce: bool,
    ) -> (r: Option<(u64, RefreshTask<B, S, A, P>)>)
        ensures
            final(self)@.wf(),
            if old(self)@.still_applies(interpolates) {
                r is None && final(self)@ == old(self)@
            } else {
                &&& final(self)@ == old(self)@.requesting()
                &&& r matches Some((id, task))
                &&& id == final(self)@.next_request_id
                &&& task == RefreshTask::<B, S, A, P>::first(inquiry, debounce)
            },
    {
        proof {
            use_type_invariant(&*self);
        }
        if let Some(CurrentExternalPrediction::Local { .. }) = &self.current_prediction {
            if interpolates {
                return None;
            }
        }
        self.pending_request = None;
        self.next_request_id = self.next_request_id.wrapping_add(1);
        self.pending_request = Some(self.next_request_id);
        Some((self.next_request_id, RefreshTask::start(inquiry, debounce)))
    }

    /// Takes what the request `request_id` came to. Tells whether there is something new to show.
    pub fn finish(
        &mut self,
        request_id: u64,
        result: Result<Option<CurrentExternalPrediction<B, S, A, P>>, ExternalError>,
    ) -> (r: bool)
        ensures
            final(self)@.wf(),
            final(self)@ == old(self)@.answered(request_id, result),
            r == (result is Ok && old(self)@.pending_request == Some(request_id)),
    {
        proof {
            use_type_invariant(&*self);
        }
        match result {
            Ok(prediction) => {
                if self.is_pending(request_id) {
                    self.current_prediction = prediction;
                    self.pending_request = None;
                    true
                } else {
                    false
                }
            },
            Err(_) => false,
        }
    }

    /// The report of a fate of the current prediction.
    fn report(&self, fate: Fate, api_url: &str) -> (r: Option<FateTask>)
        ensures
            reports(self@.current_prediction, fate, api_url@, r),
    {
        match &self.current_prediction {
            Some(prediction) => match prediction.id() {
                Some(id) => Some(FateTask::start(fate, api_url, id)),
                None => None,
            },
            None => None,
        }
    }

    /// The current prediction was accepted.
    pub fn accept(&mut self, api_url: &str) -> (r: Acceptance<B, A>)
        ensures
            final(self)@.wf(),
            final(self)@ == old(self)@.cleared(),
            reports(old(self)@.current_prediction, Fate::Accept, api_url@, r.report),
            match old(self)@.current_prediction {
                Some(CurrentExternalPrediction::Local { buffer, edits, .. }) => r.quick_fix == Some(
                    (buffer, edits),
                ),
                _ => r.quick_fix is None,
            },
    {
        let report = self.report(Fate::Accept, api_url);
        self.pending_request = None;
        let mut prediction: Option<CurrentExternalPrediction<B, S, A, P>> = None;
        std::mem::swap(&mut prediction, &mut self.current_prediction);
        let quick_fix = match prediction {
            Some(CurrentExternalPrediction::Local { buffer, edits, .. }) => Some((buffer, edits)),
            _ => None,
        };
        Acceptance { report, quick_fix }
    }

    /// Part of the current prediction was accepted.
    pub fn partial_accept(&self, api_url: &str) -> (r: Option<FateTask>)
        ensures
            reports(self@.current_prediction, Fate::PartialAccept, api_url@, r),
    {
        self.report(Fate::PartialAccept, api_url)
    }

    /// The current prediction was turned down.
    pub fn discard(&mut self, api_url: &str) -> (r: Option<FateTask>)
        ensures
            final(self)@.wf(),
            final(self)@ == old(self)@.cleared(),
            reports(old(self)@.current_prediction, Fate::Reject, api_url@, r),
    {
        let report = self.report(Fate::Reject, api_url);
        self.pending_request = None;
        self.current_prediction = None;
        report
    }
}

impl<B, S: Clone, A: Copy, P: Clone> ExternalEditPredictionDelegate<B, S, A, P> {
    /// What to show, if `interpolated` are the edits that are left of the current prediction in
    /// the buffer as it is now.
    pub fn suggest(&self, interpolated: Option<Vec<AnchoredEdit<A>>>) -> (r: Option<
        EditPrediction<S, A, P>,
    >)
        ensures
            match self@.current_prediction {
                Some(prediction) => shows(prediction, interpolated, r),
                None => r is None,
            },
    {
        match &self.current_prediction {
            Some(prediction) => edit_prediction_from_current_prediction(prediction, interpolated),
            None => None,
        }
    }
}

/// Only the latest request is ever under way, and a prediction that is shown stays until an
/// answer, an acceptance or a rejection takes its place.
pub proof fn law_latest_request<B, S, A, P>(
    state: DelegateView<B, S, A, P>,
    request_id: u64,
    result: Result<Option<CurrentExternalPrediction<B, S, A, P>>, ExternalError>,
)
    requires
        state.wf(),
    ensures
        state.requesting().wf(),
        state.answered(request_id, result).wf(),
        state.cleared().wf(),
        state.requesting().current_prediction == state.current_prediction,
{
}

/// The answer to a request that others have followed changes nothing, however many they are and
/// whatever became of them; so it is with the one before a request that has just begun.
pub proof fn law_superseded_answer_is_ignored<B, S, A, P>(
    state: DelegateView<B, S, A, P>,
    request_id: u64,
    result: Result<Option<CurrentExternalPrediction<B, S, A, P>>, ExternalError>,
)
    requires
        state.wf(),
    ensures
        request_id != state.next_request_id ==> state.answered(request_id, result) == state,
        state.requesting().answered(state.next_request_id, result) == state.requesting(),
{
}

/// The answer to a request that was under way when the prediction was accepted or turned down
/// changes nothing: no prediction is shown before the next request.
pub proof fn law_cleared_request_is_ignored<B, S, A, P>(
    state: DelegateView<B, S, A, P>,
    request_id: u64,
    result: Result<Option<CurrentExternalPrediction<B, S, A, P>>, ExternalError>,
)
    ensures
        state.cleared().answered(request_id, result) == state.cleared(),
        !state.cleared().refreshing(),
        state.cleared().current_prediction is None,
{
}

/// The answer to the request that is under way is shown, and ends the request; a failure leaves
/// all as it is.
pub proof fn law_answer_is_shown<B, S, A, P>(
    state: DelegateView<B, S, A, P>,
    request_id: u64,
    prediction: Option<CurrentExternalPrediction<B, S, A, P>>,
    error: ExternalError,
)
    requires
        state.pending_request == Some(request_id),
    ensures
        state.answered(request_id, Ok(prediction)).current_prediction == prediction,
        state.answered(request_id, Ok(prediction)).pending_request is None,
        !state.answered(request_id, Ok(prediction)).refreshing(),
        state.answered(request_id, Err(error)) == state,
{
}

/// A new request takes the next number, after the greatest one again the first; it is the one
/// under way, and the prediction that is shown stays.
pub proof fn law_request_numbers<B, S, A, P>(state: DelegateView<B, S, A, P>)
    ensures
        state.requesting().next_request_id == (state.next_request_id + 1) % 0x1_0000_0000_0000_0000,
        state.requesting().pending_request == Some(state.requesting().next_request_id),
        state.requesting().current_prediction == state.current_prediction,
        state.wf() <==> (state.pending_request is None || state.pending_request == Some(
            state.next_request_id,
        )),
{
}

/// No request is begun just where edits are shown and still apply; a jump never stands in the way.
pub proof fn law_when_to_ask<B, S, A, P>(state: DelegateView<B, S, A, P>, interpolates: bool)
    ensures
        state.current_prediction is None ==> !state.still_applies(interpolates),
        state.current_prediction matches Some(prediction) ==> (prediction is Jump
            ==> !state.still_applies(interpolates)) && (prediction is Local ==> state.still_applies(
            interpolates,
        ) == interpolates),
        state.refreshing() <==> state.pending_request is Some && state.current_prediction is None,
{
}

/// An acceptance or a rejection clears what is shown and what is under way, and keeps the count of
/// the requests; an answer keeps that too.
pub proof fn law_what_is_cleared<B, S, A, P>(
    state: DelegateView<B, S, A, P>,
    request_id: u64,
    result: Result<Option<CurrentExternalPrediction<B, S, A, P>>, ExternalError>,
)
    ensures
        state.cleared().current_prediction is None,
        state.cleared().pending_request is None,
        state.cleared().next_request_id == state.next_request_id,
        state.answered(request_id, result).next_request_id == state.next_request_id,
        state.pending_request != Some(request_id) ==> state.answered(request_id, result) == state,
{
}

/// A fate is reported just if there is a prediction and the server gave it a name, and then under
/// that name.
pub proof fn law_named_predictions_are_reported<B, S, A, P>(
    current: Option<CurrentExternalPrediction<B, S, A, P>>,
    fate: Fate,
    api_url: Seq<char>,
    task: Option<FateTask>,
)
    requires
        reports(current, fate, api_url, task),
    ensures
        current is None ==> task is None,
        current matches Some(prediction) ==> (prediction.id_text() is None ==> task is None) && (
        prediction.id_text() matches Some(id) ==> (task matches Some(
            FateTask::Post { fate: posted, request, url },
        ) && posted == fate && request.id@ == id && url@ == crate::fate::fate_url(
            api_url,
            fate.endpoint_text(),
        ))),
{
}

} // verus!
