//! What the language server suggests at the cursor.
use crate::distinct::any_is;
#[allow(unused_imports)]
use crate::distinct::{distinct, law_distinct};
use crate::json::{Fields, Json};
#[allow(unused_imports)]
use crate::json::{field, json_views, lemma_lookup_push, no_fields, string_views, JsonView};
#[allow(unused_imports)]
use crate::path::optional_text;
use crate::text::trim;
#[allow(unused_imports)]
use crate::text::{law_trimmed, trimmed};
use vstd::prelude::*;

verus! {

/// How long the language server is waited for, in milliseconds.
pub const LSP_SUGGESTED_ITEMS_TIMEOUT_MS: u64 = 120;

/// How many suggestions are sent.
pub const MAX_LSP_SUGGESTED_ITEMS: usize = 40;

/// A completion: the label that the language server gave it, if it came from one, and the
/// label that is shown for it.
#[derive(Debug, PartialEq, Eq)]
pub struct Completion {
    pub lsp_label: Option<String>,
    pub label_text: String,
}

/// The label under which a completion is sent: the language server's, else the one shown, trimmed;
/// none where that is empty.
pub open spec fn suggestion_label(completion: Completion) -> Option<Seq<char>> {
    let label = match completion.lsp_label {
        Some(label) => trimmed(label@),
        None => trimmed(completion.label_text@),
    };
    if label.len() == 0 {
        None
    } else {
        Some(label)
    }
}

/// The label under which a completion is sent.
pub fn cursor_lsp_suggestion_label(completion: &Completion) -> (r: Option<String>)
    ensures
        optional_text(r) == suggestion_label(*completion),
{
    let label: String = match &completion.lsp_label {
        Some(label) => trim(label.as_str()),
        None => trim(completion.label_text.as_str()),
    };
    if label.as_str().is_empty() {
        None
    } else {
        Some(label)
    }
}

/// The labels of the completions that have one.
pub open spec fn suggestion_labels(completions: Seq<Completion>) -> Seq<Seq<char>>
    decreases completions.len(),
{
    if completions.len() == 0 {
        Seq::empty()
    } else {
        let before = suggestion_labels(completions.drop_last());
        match suggestion_label(completions.last()) {
            Some(label) => before.push(label),
            None => before,
        }
    }
}

/// The labels that are sent: the first distinct ones.
pub open spec fn suggested_labels(completions: Seq<Completion>) -> Seq<Seq<char>> {
    let labels = distinct(suggestion_labels(completions));
    if labels.len() <= MAX_LSP_SUGGESTED_ITEMS {
        labels
    } else {
        labels.take(MAX_LSP_SUGGESTED_ITEMS as int)
    }
}

/// The labels that are sent for the completions.
pub fn lsp_suggested_labels(completions: &[Completion]) -> (r: Vec<String>)
    ensures
        string_views(r@) == suggested_labels(completions@),
{
    let mut labels: Vec<String> = Vec::new();
    let mut i: usize = 0;
    assert(completions@.take(0) == Seq::<Completion>::empty());
    assert(string_views(labels@) == suggested_labels(completions@.take(0)));
    while i < completions.len()
        invariant
            i <= completions@.len(),
            string_views(labels@) == suggested_labels(completions@.take(i as int)),
        decreases completions@.len() - i,
    {
        let ghost before = labels@;
        let ghost all = suggestion_labels(completions@.take(i as int));
        assert(completions@.take(i + 1).drop_last() == completions@.take(i as int));
        assert(string_views(before).len() == before.len());
        if labels.len() < MAX_LSP_SUGGESTED_ITEMS {
            if let Some(label) = cursor_lsp_suggestion_label(&completions[i]) {
                assert(all.push(label@).drop_last() == all);
                if !any_is(&labels, &label) {
                    labels.push(label);
                    assert(string_views(labels@) == string_views(before).push(label@));
                }
            }
        } else {
            proof {
                let next = suggestion_labels(completions@.take(i + 1));
                if next != all {
                    assert(next.drop_last() == all);
                }
                assert(distinct(next).take(MAX_LSP_SUGGESTED_ITEMS as int) == distinct(all).take(
                    MAX_LSP_SUGGESTED_ITEMS as int,
                ));
            }
        }
        i += 1;
    }
    assert(completions@.take(i as int) == completions@);
    labels
}

/// Every label that has been collected is trimmed and not empty.
proof fn lemma_labels_trimmed(completions: Seq<Completion>)
    ensures
        forall|i: int|
            0 <= i < suggestion_labels(completions).len() ==> (#[trigger] suggestion_labels(
                completions,
            )[i]).len() > 0 && trimmed(suggestion_labels(completions)[i]) == suggestion_labels(
                completions,
            )[i],
    decreases completions.len(),
{
    if completions.len() > 0 {
        lemma_labels_trimmed(completions.drop_last());
        match completions.last().lsp_label {
            Some(label) => law_trimmed(label@),
            None => law_trimmed(completions.last().label_text@),
        }
        let before = suggestion_labels(completions.drop_last());
        assert forall|i: int| 0 <= i < suggestion_labels(completions).len() implies (
        #[trigger] suggestion_labels(completions)[i]).len() > 0 && trimmed(
            suggestion_labels(completions)[i],
        ) == suggestion_labels(completions)[i] by {
            if i < before.len() {
                assert(suggestion_labels(completions)[i] == before[i]);
            }
        }
    }
}

/// The labels that are sent are distinct, trimmed and not empty, and no more than
/// [`MAX_LSP_SUGGESTED_ITEMS`].
pub proof fn law_suggested_labels(completions: Seq<Completion>)
    ensures
        suggested_labels(completions).len() <= MAX_LSP_SUGGESTED_ITEMS,
        suggested_labels(completions).no_duplicates(),
        forall|i: int|
            0 <= i < suggested_labels(completions).len() ==> (#[trigger] suggested_labels(
                completions,
            )[i]).len() > 0 && trimmed(suggested_labels(completions)[i]) == suggested_labels(
                completions,
            )[i],
{
    let all = suggestion_labels(completions);
    lemma_labels_trimmed(completions);
    law_distinct(all);
    assert forall|i: int| 0 <= i < suggested_labels(completions).len() implies (
    #[trigger] suggested_labels(completions)[i]).len() > 0 && trimmed(
        suggested_labels(completions)[i],
    ) == suggested_labels(completions)[i] by {
        let label = suggested_labels(completions)[i];
        assert(distinct(all)[i] == label);
        assert(distinct(all).contains(label));
        assert(all.contains(label));
    }
}

/// The labels that are not white space throughout, trimmed.
pub open spec fn kept_labels(labels: Seq<Seq<char>>) -> Seq<Seq<char>>
    decreases labels.len(),
{
    if labels.len() == 0 {
        Seq::empty()
    } else {
        let before = kept_labels(labels.drop_last());
        let label = trimmed(labels.last());
        if label.len() == 0 {
            before
        } else {
            before.push(label)
        }
    }
}

/// A suggestion as it is sent.
pub open spec fn suggestion_value(label: Seq<char>) -> JsonView {
    JsonView::Object(no_fields().push(("label"@, JsonView::Str(label))))
}

/// The suggestions as they are sent.
pub open spec fn suggested_items_value(labels: Seq<Seq<char>>) -> JsonView {
    JsonView::Object(
        no_fields().push(
            (
                "suggestions"@,
                JsonView::Array(kept_labels(labels).map_values(|l: Seq<char>| suggestion_value(l))),
            ),
        ),
    )
}

/// The suggestions as they are sent.
pub fn cursor_lsp_suggested_items(labels: &[String]) -> (r: Json)
    ensures
        r@ == suggested_items_value(string_views(labels@)),
{
    let mut items: Vec<Json> = Vec::new();
    let mut i: usize = 0;
    let ghost value = |l: Seq<char>| suggestion_value(l);
    assert(string_views(labels@).take(0) == Seq::<Seq<char>>::empty());
    while i < labels.len()
        invariant
            i <= labels@.len(),
            value == (|l: Seq<char>| suggestion_value(l)),
            json_views(items@) == kept_labels(string_views(labels@).take(i as int)).map_values(value),
        decreases labels@.len() - i,
    {
        let ghost before = items@;
        let ghost views = string_views(labels@);
        assert(views.take(i + 1).drop_last() == views.take(i as int));
        let label: String = trim(labels[i].as_str());
        if !label.as_str().is_empty() {
            items.push(Fields::new().with("label", Json::Str(label)).object());
            assert(json_views(items@) == json_views(before).push(suggestion_value(label@)));
            assert(kept_labels(views.take(i + 1)).map_values(value) == kept_labels(
                views.take(i as int),
            ).map_values(value).push(suggestion_value(label@)));
        }
        i += 1;
    }
    assert(string_views(labels@).take(i as int) == string_views(labels@));
    Fields::new().with("suggestions", Json::array(items)).object()
}

/// Labels that are trimmed and not empty are kept as they are.
proof fn lemma_trimmed_labels_are_kept(labels: Seq<Seq<char>>)
    requires
        forall|i: int| 0 <= i < labels.len() ==> (#[trigger] labels[i]).len() > 0 && trimmed(labels[i])
            == labels[i],
    ensures
        kept_labels(labels) == labels,
    decreases labels.len(),
{
    if labels.len() > 0 {
        lemma_trimmed_labels_are_kept(labels.drop_last());
        assert(labels.drop_last().push(labels.last()) == labels);
    }
}

/// Every label that is suggested is sent, as it is and in its place.
pub proof fn law_suggested_labels_are_sent(completions: Seq<Completion>)
    ensures
        kept_labels(suggested_labels(completions)) == suggested_labels(completions),
{
    law_suggested_labels(completions);
    lemma_trimmed_labels_are_kept(suggested_labels(completions));
}

/// Unless there are more than [`MAX_LSP_SUGGESTED_ITEMS`] distinct labels, every completion that
/// has a label is suggested.
pub proof fn law_every_label_is_suggested(completions: Seq<Completion>, i: int)
    requires
        0 <= i < completions.len(),
        suggestion_label(completions[i]) is Some,
        distinct(suggestion_labels(completions)).len() <= MAX_LSP_SUGGESTED_ITEMS,
    ensures
        suggested_labels(completions).contains(suggestion_label(completions[i])->0),
{
    lemma_label_is_collected(completions, i);
    law_distinct(suggestion_labels(completions));
}

/// The label of every completion that has one is collected.
proof fn lemma_label_is_collected(completions: Seq<Completion>, i: int)
    requires
        0 <= i < completions.len(),
        suggestion_label(completions[i]) is Some,
    ensures
        suggestion_labels(completions).contains(suggestion_label(completions[i])->0),
    decreases completions.len(),
{
    let all = suggestion_labels(completions);
    let before = suggestion_labels(completions.drop_last());
    let label = suggestion_label(completions[i])->0;
    if i < completions.len() - 1 {
        lemma_label_is_collected(completions.drop_last(), i);
        let k = choose|k: int| 0 <= k < before.len() && before[k] == label;
        assert(all[k] == label);
    } else {
        assert(all[before.len() as int] == label);
    }
}

/// A completion is sent under the language server's label if it has one, else under the one shown,
/// with nothing but the white space around it cut off; one that is white space is not sent.
pub proof fn law_suggestion_label(completion: Completion)
    ensures
        completion.lsp_label matches Some(label) ==> (trimmed(label@).len() > 0
            ==> suggestion_label(completion) == Some(trimmed(label@))) && (trimmed(label@).len() == 0
            ==> suggestion_label(completion) is None),
        completion.lsp_label is None ==> (trimmed(completion.label_text@).len() > 0
            ==> suggestion_label(completion) == Some(trimmed(completion.label_text@))) && (trimmed(
            completion.label_text@,
        ).len() == 0 ==> suggestion_label(completion) is None),
{
}

/// The labels are collected in the order of the completions, each once for each completion that
/// has it.
pub proof fn law_labels_are_collected_in_order(completions: Seq<Completion>, next: Completion)
    ensures
        suggestion_labels(Seq::empty()) == Seq::<Seq<char>>::empty(),
        suggestion_label(next) matches Some(label) ==> suggestion_labels(completions.push(next))
            == suggestion_labels(completions).push(label),
        suggestion_label(next) is None ==> suggestion_labels(completions.push(next))
            == suggestion_labels(completions),
{
    assert(completions.push(next).drop_last() == completions);
}

/// The labels that are suggested are the first forty distinct ones, or all where there are no more.
pub proof fn law_first_labels_are_suggested(completions: Seq<Completion>)
    ensures
        ({
            let all = distinct(suggestion_labels(completions));
            let sent = suggested_labels(completions);
            &&& all.len() <= 40 ==> sent == all
            &&& all.len() > 40 ==> sent.len() == 40
            &&& forall|i: int| 0 <= i < sent.len() ==> #[trigger] sent[i] == all[i]
        }),
{
}

/// Labels are sent in their order, without the white space around them; one that is white space
/// is left out.
pub proof fn law_labels_are_sent_in_order(labels: Seq<Seq<char>>, next: Seq<char>)
    ensures
        kept_labels(Seq::empty()) == Seq::<Seq<char>>::empty(),
        trimmed(next).len() > 0 ==> kept_labels(labels.push(next)) == kept_labels(labels).push(
            trimmed(next),
        ),
        trimmed(next).len() == 0 ==> kept_labels(labels.push(next)) == kept_labels(labels),
{
    assert(labels.push(next).drop_last() == labels);
}

/// Each label that is sent stands under `label`, in its place among the suggestions.
pub proof fn law_suggestions_are_sent(labels: Seq<Seq<char>>, i: int)
    ensures
        ({
            let value = suggested_items_value(labels);
            &&& value matches JsonView::Object(fields) && fields.len() == 1
            &&& field(value, "suggestions"@) matches Some(JsonView::Array(items)) && items.len()
                == kept_labels(labels).len() && (0 <= i < items.len() ==> {
                &&& items[i] matches JsonView::Object(fields) && fields.len() == 1
                &&& field(items[i], "label"@) == Some(JsonView::Str(kept_labels(labels)[i]))
            })
        }),
{
    broadcast use lemma_lookup_push;
}

} // verus!
