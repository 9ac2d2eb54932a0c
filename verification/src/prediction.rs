//! Predictions: as they are kept, and as they are shown.
//!
//! `B` stands for a buffer, `S` for a state of its text, `A` for a place in it that moves along
//! with the text, and `P` for a preview of edits.
use crate::path::optional_text;
use vstd::prelude::*;

verus! {

/// The replacement of the text from `start` up to `end`.
#[derive(Debug, PartialEq, Eq)]
pub struct AnchoredEdit<A> {
    pub start: A,
    pub end: A,
    pub text: String,
}

/// A prediction as it is kept.
#[derive(Debug, PartialEq, Eq)]
pub enum CurrentExternalPrediction<B, S, A, P> {
    /// Edits of the current buffer, made for its state `snapshot`.
    Local {
        id: Option<String>,
        buffer: B,
        snapshot: S,
        edits: Vec<AnchoredEdit<A>>,
        edit_preview: P,
    },
    /// A place in a buffer.
    Jump { id: Option<String>, snapshot: S, target: A, should_retrigger: bool },
}

impl<B, S, A, P> CurrentExternalPrediction<B, S, A, P> {
    /// The name that the server gave the prediction.
    pub open spec fn id_text(self) -> Option<Seq<char>> {
        match self {
            CurrentExternalPrediction::Local { id, .. } => optional_text(id),
            CurrentExternalPrediction::Jump { id, .. } => optional_text(id),
        }
    }

    /// The name that the server gave the prediction.
    pub fn id(&self) -> (r: Option<String>)
        ensures
            optional_text(r) == self.id_text(),
    {
        match self {
            CurrentExternalPrediction::Local { id, .. } => copy_text(id),
            CurrentExternalPrediction::Jump { id, .. } => copy_text(id),
        }
    }
}

/// The same text once more.
pub fn copy_text(s: &Option<String>) -> (r: Option<String>)
    ensures
        optional_text(r) == optional_text(*s),
{
    match s {
        Some(text) => Some(text.clone()),
        None => None,
    }
}

/// A prediction as it is shown.
#[derive(Debug, PartialEq, Eq)]
pub enum EditPrediction<S, A, P> {
    Local {
        id: Option<String>,
        edits: Vec<AnchoredEdit<A>>,
        cursor_position: Option<A>,
        edit_preview: Option<P>,
    },
    Jump { id: Option<String>, snapshot: S, target: A, should_retrigger: bool },
}

/// `shown` is what is shown of `prediction`, if `interpolated` are the edits that are left of it
/// in the buffer as it is now: of edits those that are left, if there are any; of a jump all.
pub open spec fn shows<B, S: Clone, A, P: Clone>(
    prediction: CurrentExternalPrediction<B, S, A, P>,
    interpolated: Option<Vec<AnchoredEdit<A>>>,
    shown: Option<EditPrediction<S, A, P>>,
) -> bool {
    match prediction {
        CurrentExternalPrediction::Local { edit_preview, .. } => match interpolated {
            Some(left) if left@.len() > 0 => {
                &&& shown matches Some(
                    EditPrediction::Local {
                        id,
                        edits,
                        cursor_position,
                        edit_preview: Some(preview),
                    },
                )
                &&& optional_text(id) == prediction.id_text()
                &&& edits == left
                &&& cursor_position is None
                &&& cloned(edit_preview, preview)
            },
            _ => shown is None,
        },
        CurrentExternalPrediction::Jump { snapshot, target, should_retrigger, .. } => {
            &&& shown matches Some(
                EditPrediction::Jump {
                    id,
                    snapshot: shown_snapshot,
                    target: shown_target,
                    should_retrigger: retrigger,
                },
            )
            &&& optional_text(id) == prediction.id_text()
            &&& cloned(snapshot, shown_snapshot)
            &&& shown_target == target
            &&& retrigger == should_retrigger
        },
    }
}

/// What is shown of a prediction, if `interpolated` are the edits that are left of it in the
/// buffer as it is now.
pub fn edit_prediction_from_current_prediction<B, S: Clone, A: Copy, P: Clone>(
    prediction: &CurrentExternalPrediction<B, S, A, P>,
    interpolated: Option<Vec<AnchoredEdit<A>>>,
) -> (r: Option<EditPrediction<S, A, P>>)
    ensures
        shows(*prediction, interpolated, r),
{
    match prediction {
        CurrentExternalPrediction::Local { edit_preview, .. } => {
            let edits = match interpolated {
                Some(edits) => edits,
                None => {
                    return None;
                },
            };
            if edits.len() == 0 {
                return None;
            }
            Some(
                EditPrediction::Local {
                    id: prediction.id(),
                    edits,
                    cursor_position: None,
                    edit_preview: Some(edit_preview.clone()),
                },
            )
        },
        CurrentExternalPrediction::Jump { snapshot, target, should_retrigger, .. } => Some(
            EditPrediction::Jump {
                id: prediction.id(),
                snapshot: snapshot.clone(),
                target: *target,
                should_retrigger: *should_retrigger,
            },
        ),
    }
}

/// A jump is shown whatever became of the buffer, and keeps its name, the state of the buffer that
/// it leads to, its place there and whether it asks for a prediction there.
pub proof fn law_jump_is_shown<B, S: Clone, A, P: Clone>(
    prediction: CurrentExternalPrediction<B, S, A, P>,
    interpolated: Option<Vec<AnchoredEdit<A>>>,
    shown: Option<EditPrediction<S, A, P>>,
)
    requires
        prediction is Jump,
        shows(prediction, interpolated, shown),
    ensures
        shown matches Some(EditPrediction::Jump { id, snapshot, target, should_retrigger })
            && optional_text(id) == prediction.id_text() && cloned(
            prediction->Jump_snapshot,
            snapshot,
        ) && target == prediction->target
            && should_retrigger == prediction->should_retrigger,
{
}

/// The name of a prediction is the one that it holds.
pub proof fn law_name_of_prediction<B, S, A, P>(prediction: CurrentExternalPrediction<B, S, A, P>)
    ensures
        prediction matches CurrentExternalPrediction::Local { id, .. } ==> prediction.id_text()
            == optional_text(id),
        prediction matches CurrentExternalPrediction::Jump { id, .. } ==> prediction.id_text()
            == optional_text(id),
{
}

/// Of edits just those that are left are shown, all of them and in their order, under the name of
/// the prediction and with its preview; where none are left, nothing is shown.
pub proof fn law_edits_left_are_shown<B, S: Clone, A, P: Clone>(
    prediction: CurrentExternalPrediction<B, S, A, P>,
    interpolated: Option<Vec<AnchoredEdit<A>>>,
    shown: Option<EditPrediction<S, A, P>>,
)
    requires
        prediction is Local,
        shows(prediction, interpolated, shown),
    ensures
        interpolated is None ==> shown is None,
        interpolated matches Some(left) ==> (left@.len() == 0 ==> shown is None) && (left@.len() > 0
            ==> (shown matches Some(
            EditPrediction::Local { id, edits, cursor_position, edit_preview },
        ) && optional_text(id) == optional_text(prediction->Local_id) && edits@ == left@
            && cursor_position is None && edit_preview is Some && cloned(
            prediction->edit_preview,
            edit_preview->0,
        ))),
{
}

} // verus!
