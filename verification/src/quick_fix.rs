//! Adding the imports that an accepted prediction needs: which code action to apply, where to
//! ask for it, and how often.
#[allow(unused_imports)]
use crate::diagnostics::law_row_and_column;
use crate::outcome::ExternalError;
use crate::point::{Point, PointRange};
use crate::text::{chars_of, contains, is_at, lines_of, starts_with, to_ascii_lowercase};
#[allow(unused_imports)]
use crate::text::{
    begins_with, contains_text, lemma_text_lines_nonempty, line_views, lowered, text_lines,
};
use vstd::prelude::*;

verus! {

// ---------------------------------------------------------------------------
// Code actions
// ---------------------------------------------------------------------------
/// The kind of a code action: a dotted name such as `source.organizeImports`.
#[derive(Debug, PartialEq, Eq)]
pub struct CodeActionKind {
    pub value: String,
}

impl View for CodeActionKind {
    type V = Seq<char>;

    open spec fn view(&self) -> Seq<char> {
        self.value@
    }
}

impl CodeActionKind {
    pub fn new(value: &str) -> (r: CodeActionKind)
        ensures
            r@ == value@,
    {
        CodeActionKind { value: value.to_owned() }
    }

    /// Fixes for a problem.
    pub fn quickfix() -> (r: CodeActionKind)
        ensures
            r@ == "quickfix"@,
    {
        CodeActionKind::new("quickfix")
    }

    /// Actions on a whole file.
    pub fn source() -> (r: CodeActionKind)
        ensures
            r@ == "source"@,
    {
        CodeActionKind::new("source")
    }

    pub fn as_str(&self) -> (r: &str)
        ensures
            r@ == self@,
    {
        self.value.as_str()
    }
}

/// A code action that a language server offers.
#[derive(Debug, PartialEq, Eq)]
pub struct CodeAction {
    pub title: String,
    pub kind: Option<CodeActionKind>,
    pub disabled: bool,
}

/// The kinds of code action to ask for.
pub fn import_quick_fix_code_action_kinds() -> (r: Vec<CodeActionKind>)
    ensures
        r@.len() == 2,
        r@[0]@ == "quickfix"@,
        r@[1]@ == "source"@,
{
    let mut kinds: Vec<CodeActionKind> = Vec::new();
    kinds.push(CodeActionKind::quickfix());
    kinds.push(CodeActionKind::source());
    kinds
}

/// `actual` is the kind `requested` or one below it.
pub open spec fn kind_matches(requested: Seq<char>, actual: Seq<char>) -> bool {
    ||| actual == requested
    ||| begins_with(actual, requested) && actual.len() > requested.len() && actual[requested.len() as int]
        == '.'
}

/// Whether `actual` is the kind `requested` or one below it.
pub fn code_action_kind_matches(requested: &CodeActionKind, actual: &CodeActionKind) -> (r: bool)
    ensures
        r == kind_matches(requested@, actual@),
{
    if actual.value == requested.value {
        return true;
    }
    let wanted = chars_of(requested.as_str());
    let given = chars_of(actual.as_str());
    is_at(&given, &wanted, 0) && given.len() > wanted.len() && given[wanted.len()] == '.'
}

/// The kind is a quick fix, a source action or not given.
pub open spec fn is_supported_kind(kind: Option<Seq<char>>) -> bool {
    match kind {
        Some(k) => kind_matches("quickfix"@, k) || kind_matches("source"@, k),
        None => true,
    }
}

/// The kind, in small letters, holds `part`.
pub open spec fn kind_contains(kind: Option<Seq<char>>, part: Seq<char>) -> bool {
    match kind {
        Some(k) => contains_text(lowered(k), part),
        None => false,
    }
}

/// The action adds imports: it is enabled and of a kind that was asked for, its title or its kind
/// speaks of imports, and its title speaks of nothing else that is done to them.
pub open spec fn adds_import(kind: Option<Seq<char>>, title: Seq<char>, disabled: bool) -> bool {
    let words = lowered(title);
    &&& !disabled
    &&& is_supported_kind(kind)
    &&& contains_text(words, "import"@) || kind_contains(kind, "addmissingimports"@)
    &&& !contains_text(words, "organize imports"@)
    &&& !contains_text(words, "fix all"@)
    &&& !contains_text(words, "remove"@)
    &&& !contains_text(words, "unused"@)
}

/// The characters of an optional kind.
pub open spec fn kind_text(kind: Option<CodeActionKind>) -> Option<Seq<char>> {
    match kind {
        Some(k) => Some(k@),
        None => None,
    }
}

/// The characters of an optional reference to a kind.
pub open spec fn kind_ref_text(kind: Option<&CodeActionKind>) -> Option<Seq<char>> {
    match kind {
        Some(k) => Some(k@),
        None => None,
    }
}

/// Whether the kind, in small letters, holds `part`.
fn kind_has(kind: Option<&CodeActionKind>, part: &str) -> (r: bool)
    ensures
        r == kind_contains(kind_ref_text(kind), part@),
{
    match kind {
        Some(k) => contains(to_ascii_lowercase(k.as_str()).as_str(), part),
        None => false,
    }
}

/// Whether an action of this kind and title adds imports.
pub fn is_import_code_action(kind: Option<&CodeActionKind>, title: &str, disabled: bool) -> (r: bool)
    ensures
        r == adds_import(kind_ref_text(kind), title@, disabled),
{
    if disabled {
        return false;
    }
    let supported = match kind {
        Some(k) => code_action_kind_matches(&CodeActionKind::quickfix(), k)
            || code_action_kind_matches(&CodeActionKind::source(), k),
        None => true,
    };
    if !supported {
        return false;
    }
    let lower = to_ascii_lowercase(title);
    let words = lower.as_str();
    (contains(words, "import") || kind_has(kind, "addmissingimports")) && !contains(
        words,
        "organize imports",
    ) && !contains(words, "fix all") && !contains(words, "remove") && !contains(words, "unused")
}

/// The title, in small letters, says what is imported from where.
pub open spec fn names_module(words: Seq<char>) -> bool {
    ||| contains_text(words, "add import from"@)
    ||| contains_text(words, "import from"@)
    ||| begins_with(words, "import "@) && contains_text(words, " from "@)
}

/// How specific an action is that adds imports, the most specific first; `None` for others.
pub open spec fn priority(action: CodeAction) -> Option<u8> {
    let kind = kind_text(action.kind);
    if !adds_import(kind, action.title@, action.disabled) {
        None
    } else if names_module(lowered(action.title@)) {
        Some(0)
    } else if kind_contains(kind, "quickfix"@) {
        Some(1)
    } else if kind_contains(kind, "addmissingimports"@) {
        Some(2)
    } else {
        Some(3)
    }
}

/// How specific an action is that adds imports, the most specific first; `None` for others.
pub fn import_quick_fix_priority(action: &CodeAction) -> (r: Option<u8>)
    ensures
        r == priority(*action),
{
    let kind: Option<&CodeActionKind> = match &action.kind {
        Some(k) => Some(k),
        None => None,
    };
    if !is_import_code_action(kind, action.title.as_str(), action.disabled) {
        return None;
    }
    let lower = to_ascii_lowercase(action.title.as_str());
    let words = lower.as_str();
    if contains(words, "add import from") || contains(words, "import from") || (starts_with(
        words,
        "import ",
    ) && contains(words, " from ")) {
        Some(0)
    } else if kind_has(kind, "quickfix") {
        Some(1)
    } else if kind_has(kind, "addmissingimports") {
        Some(2)
    } else {
        Some(3)
    }
}

// ---------------------------------------------------------------------------
// Selection
// ---------------------------------------------------------------------------
/// The action at `i` is the first of the most specific ones that add imports.
pub open spec fn is_selected(actions: Seq<CodeAction>, i: int) -> bool {
    &&& 0 <= i < actions.len()
    &&& priority(actions[i]) is Some
    &&& forall|j: int|
        0 <= j < actions.len() && (#[trigger] priority(actions[j])) is Some ==> priority(
            actions[i],
        )->0 < priority(actions[j])->0 || (priority(actions[i])->0 == priority(actions[j])->0 && i
            <= j)
}

/// None of the actions adds imports.
pub open spec fn none_selected(actions: Seq<CodeAction>) -> bool {
    forall|j: int| 0 <= j < actions.len() ==> (#[trigger] priority(actions[j])) is None
}

/// The index of the first of the most specific actions that add imports.
pub fn import_quick_fix_index(actions: &Vec<CodeAction>) -> (r: Option<usize>)
    ensures
        match r {
            Some(i) => is_selected(actions@, i as int),
            None => none_selected(actions@),
        },
{
    let mut best: Option<(u8, usize)> = None;
    let mut i: usize = 0;
    while i < actions.len()
        invariant
            i <= actions@.len(),
            match best {
                Some((p, k)) => k < i && priority(actions@[k as int]) == Some(p) && forall|j: int|
                    0 <= j < i && (#[trigger] priority(actions@[j])) is Some ==> p < priority(
                        actions@[j],
                    )->0 || (p == priority(actions@[j])->0 && k <= j),
                None => forall|j: int|
                    0 <= j < i ==> (#[trigger] priority(actions@[j])) is None,
            },
        decreases actions@.len() - i,
    {
        if let Some(p) = import_quick_fix_priority(&actions[i]) {
            match best {
                Some((lowest, _)) => {
                    if p < lowest {
                        best = Some((p, i));
                    }
                },
                None => {
                    best = Some((p, i));
                },
            }
        }
        i += 1;
    }
    match best {
        Some((_, k)) => Some(k),
        None => None,
    }
}

/// The first of the most specific actions that add imports.
pub fn select_import_quick_fix_attempt(actions: Vec<CodeAction>) -> (r: Option<CodeAction>)
    ensures
        match r {
            Some(action) => exists|i: int|
                #[trigger] is_selected(actions@, i) && action == actions@[i],
            None => none_selected(actions@),
        },
{
    match import_quick_fix_index(&actions) {
        Some(i) => {
            assert(is_selected(actions@, i as int));
            let mut rest = actions;
            Some(rest.swap_remove(i))
        },
        None => None,
    }
}

/// The first of the most specific actions that add imports.
pub fn select_import_quick_fix(actions: Vec<CodeAction>) -> (r: Option<CodeAction>)
    ensures
        match r {
            Some(action) => exists|i: int|
                #[trigger] is_selected(actions@, i) && action == actions@[i],
            None => none_selected(actions@),
        },
{
    select_import_quick_fix_attempt(actions)
}

/// `k` is the first of the attempts whose actions include one that adds imports.
pub open spec fn is_settled(attempts: Seq<Vec<CodeAction>>, k: int) -> bool {
    &&& 0 <= k < attempts.len()
    &&& !none_selected(attempts[k]@)
    &&& forall|j: int| 0 <= j < k ==> none_selected(#[trigger] attempts[j]@)
}

/// The selected action of the first attempt that has one, and the number of that attempt.
pub fn select_import_quick_fix_from_attempts(attempts: Vec<Vec<CodeAction>>) -> (r: Option<
    (usize, CodeAction),
>)
    ensures
        match r {
            Some((k, action)) => is_settled(attempts@, k as int) && exists|i: int|
                #[trigger] is_selected(attempts@[k as int]@, i) && action == attempts@[k as int]@[i],
            None => forall|k: int| 0 <= k < attempts@.len() ==> none_selected(#[trigger] attempts@[k]@),
        },
{
    let mut k: usize = 0;
    while k < attempts.len()
        invariant
            k <= attempts@.len(),
            forall|j: int| 0 <= j < k ==> none_selected(#[trigger] attempts@[j]@),
        decreases attempts@.len() - k,
    {
        if let Some(i) = import_quick_fix_index(&attempts[k]) {
            let ghost before = attempts@;
            assert(is_selected(before[k as int]@, i as int));
            assert(!none_selected(before[k as int]@)) by {
                assert(priority(before[k as int]@[i as int]) is Some);
            }
            let mut rest = attempts;
            let mut actions = rest.swap_remove(k);
            let action = actions.swap_remove(i);
            return Some((k, action));
        }
        k += 1;
    }
    None
}

// ---------------------------------------------------------------------------
// Where to ask
// ---------------------------------------------------------------------------
/// An edit of an accepted prediction, with its range as it now stands in the buffer.
#[derive(Debug, PartialEq, Eq)]
pub struct AcceptedEdit {
    pub range: PointRange,
    pub text: String,
}

/// How many rows above and below the accepted edits are searched.
pub const SEARCH_MARGIN_ROWS: u32 = 3;

/// The number of line feeds of `s`.
pub open spec fn line_feeds(s: Seq<char>) -> int {
    text_lines(s).len() - 1
}

/// The last row of the text that the edit puts in, if its first row is where the edit begins.
pub open spec fn inserted_end_row(edit: AcceptedEdit) -> int {
    edit.range.start.row + line_feeds(edit.text@) as u32
}

/// The least row at which one of the edits begins.
pub open spec fn least_start_row(edits: Seq<AcceptedEdit>) -> u32
    decreases edits.len(),
{
    if edits.len() == 0 {
        u32::MAX
    } else {
        let before = least_start_row(edits.drop_last());
        if edits.last().range.start.row < before {
            edits.last().range.start.row
        } else {
            before
        }
    }
}

/// The greatest row at which one of the edits or its inserted text ends.
pub open spec fn greatest_end_row(edits: Seq<AcceptedEdit>) -> int
    decreases edits.len(),
{
    if edits.len() == 0 {
        0
    } else {
        let before = greatest_end_row(edits.drop_last());
        let edit = edits.last();
        let inserted = if inserted_end_row(edit) > before {
            inserted_end_row(edit)
        } else {
            before
        };
        if edit.range.end.row > inserted {
            edit.range.end.row as int
        } else {
            inserted
        }
    }
}

/// Every row on the way can be counted in 32 bits.
pub open spec fn search_fits(edits: Seq<AcceptedEdit>) -> bool {
    &&& forall|i: int|
        0 <= i < edits.len() ==> inserted_end_row(#[trigger] edits[i]) <= u32::MAX
    &&& greatest_end_row(edits) + SEARCH_MARGIN_ROWS <= u32::MAX
}

/// The part of a buffer that ends at `max_point` in which imports for the edits are asked for:
/// some rows above and below them.
pub open spec fn search_range(edits: Seq<AcceptedEdit>, max_point: Point) -> PointRange {
    let least = least_start_row(edits);
    let start = if least == u32::MAX || least < SEARCH_MARGIN_ROWS {
        0
    } else {
        least - SEARCH_MARGIN_ROWS
    };
    let below = greatest_end_row(edits) + SEARCH_MARGIN_ROWS;
    let end = if below < max_point.row {
        below
    } else {
        max_point.row as int
    };
    PointRange {
        start: Point { row: start as u32, column: 0 },
        end: Point { row: end as u32, column: max_point.column },
    }
}

/// The part of a buffer that ends at `max_point` in which imports for the edits are asked for,
/// where its rows can be counted in 32 bits.
pub fn checked_search_range(edits: &[AcceptedEdit], max_point: Point) -> (r: Option<PointRange>)
    ensures
        match r {
            Some(range) => search_fits(edits@) && range == search_range(edits@, max_point),
            None => !search_fits(edits@),
        },
{
    let mut start_row: u32 = u32::MAX;
    let mut end_row: u32 = 0;
    let mut i: usize = 0;
    proof {
        assert(edits@.take(0) == Seq::<AcceptedEdit>::empty());
    }
    while i < edits.len()
        invariant
            i <= edits@.len(),
            forall|k: int| 0 <= k < i ==> inserted_end_row(#[trigger] edits@[k]) <= u32::MAX,
            start_row == least_start_row(edits@.take(i as int)),
            end_row == greatest_end_row(edits@.take(i as int)),
        decreases edits@.len() - i,
    {
        proof {
            assert(edits@.take(i + 1).drop_last() == edits@.take(i as int));
        }
        let edit = &edits[i];
        let lines = lines_of(&chars_of(edit.text.as_str()));
        assert(line_views(lines@).len() == lines@.len());
        let feeds: u32 = (lines.len() - 1) as u32;
        if feeds > u32::MAX - edit.range.start.row {
            assert(inserted_end_row(edits@[i as int]) > u32::MAX);
            return None;
        }
        if edit.range.start.row < start_row {
            start_row = edit.range.start.row;
        }
        let inserted: u32 = edit.range.start.row + feeds;
        if inserted > end_row {
            end_row = inserted;
        }
        if edit.range.end.row > end_row {
            end_row = edit.range.end.row;
        }
        i += 1;
    }
    assert(edits@.take(i as int) == edits@);
    if end_row > u32::MAX - SEARCH_MARGIN_ROWS {
        return None;
    }
    if start_row == u32::MAX {
        start_row = 0;
    }
    let start: u32 = if start_row < SEARCH_MARGIN_ROWS {
        0
    } else {
        start_row - SEARCH_MARGIN_ROWS
    };
    let below: u32 = end_row + SEARCH_MARGIN_ROWS;
    let end: u32 = if below < max_point.row {
        below
    } else {
        max_point.row
    };
    Some(PointRange { start: Point::new(start, 0), end: Point::new(end, max_point.column) })
}

/// The part of a buffer that ends at `max_point` in which imports for the edits are asked for.
pub fn accepted_edit_search_range(edits: &[AcceptedEdit], max_point: Point) -> (r: PointRange)
    requires
        search_fits(edits@),
    ensures
        r == search_range(edits@, max_point),
{
    checked_search_range(edits, max_point).unwrap()
}

/// Where the edits begin and end bounds the search.
proof fn lemma_row_bounds(edits: Seq<AcceptedEdit>, i: int)
    requires
        0 <= i < edits.len(),
    ensures
        least_start_row(edits) <= edits[i].range.start.row,
        greatest_end_row(edits) >= edits[i].range.end.row,
        greatest_end_row(edits) >= inserted_end_row(edits[i]),
    decreases edits.len(),
{
    if i < edits.len() - 1 {
        lemma_row_bounds(edits.drop_last(), i);
    }
}

/// The search covers every accepted edit: it begins no later than the edit, and it ends no
/// earlier than the edit and its inserted text, but for the end of the buffer.
pub proof fn law_search_covers_edits(edits: Seq<AcceptedEdit>, max_point: Point, i: int)
    requires
        search_fits(edits),
        0 <= i < edits.len(),
    ensures
        search_range(edits, max_point).start.row <= edits[i].range.start.row,
        search_range(edits, max_point).start.column == 0,
        search_range(edits, max_point).end.row <= max_point.row,
        search_range(edits, max_point).end.row >= edits[i].range.end.row || search_range(
            edits,
            max_point,
        ).end == max_point,
        search_range(edits, max_point).end.row >= inserted_end_row(edits[i]) || search_range(
            edits,
            max_point,
        ).end == max_point,
{
    lemma_row_bounds(edits, i);
}

// ---------------------------------------------------------------------------
// How often to ask
// ---------------------------------------------------------------------------
/// How many milliseconds to wait before each attempt.
pub const IMPORT_QUICK_FIX_RETRY_DELAYS_MS: [u64; 4] = [100, 250, 500, 900];

/// What the search for an import quick fix waits for.
#[derive(Debug, PartialEq, Eq)]
pub enum ImportQuickFixTask {
    /// Wait before the attempt.
    Wait { attempt: usize, millis: u64 },
    /// Ask for the code actions in the range, of the kinds to ask for.
    RequestActions { attempt: usize, range: PointRange },
    /// Apply the action at `index` of those that the attempt brought.
    Apply { attempt: usize, index: usize },
    /// Nothing is left to do.
    Finished(Result<(), ExternalError>),
}

/// What happened outside.
#[derive(Debug, PartialEq, Eq)]
pub enum ImportQuickFixEvent {
    /// The wait is over; the accepted edits as they now stand, and where the buffer now ends.
    Waited { edits: Vec<AcceptedEdit>, max_point: Point },
    /// The code actions, or `None` where the server gave no answer.
    Actions(Option<Vec<CodeAction>>),
    /// The action was applied.
    Applied,
    /// Asking for the actions, or applying one, failed.
    Failed(String),
}

impl ImportQuickFixEvent {
    /// The code actions that came; none where the server gave no answer.
    pub open spec fn actions(self) -> Seq<CodeAction> {
        match self {
            ImportQuickFixEvent::Actions(Some(actions)) => actions@,
            _ => Seq::empty(),
        }
    }
}

/// The index of the selected action.
pub open spec fn selected(actions: Seq<CodeAction>) -> Option<int> {
    if none_selected(actions) {
        None
    } else {
        Some(choose|i: int| is_selected(actions, i))
    }
}

/// Unless no action adds imports, one is selected.
proof fn lemma_selection_exists(actions: Seq<CodeAction>)
    requires
        !none_selected(actions),
    ensures
        exists|i: int| is_selected(actions, i),
    decreases actions.len(),
{
    let shorter = actions.drop_last();
    let last = actions.len() - 1;
    if none_selected(shorter) {
        assert forall|j: int| 0 <= j < actions.len() && (#[trigger] priority(actions[j])) is Some implies j
            == last by {
            if j < last {
                assert(priority(shorter[j]) is None);
            }
        }
        assert(is_selected(actions, last));
    } else {
        lemma_selection_exists(shorter);
        let i = choose|i: int| is_selected(shorter, i);
        assert forall|j: int| 0 <= j < last && (#[trigger] priority(actions[j])) is Some implies priority(
            actions[i],
        )->0 < priority(actions[j])->0 || (priority(actions[i])->0 == priority(actions[j])->0 && i
            <= j) by {
            assert(priority(shorter[j]) is Some);
        }
        if priority(actions[last]) is Some && priority(actions[last])->0 < priority(actions[i])->0 {
            assert(is_selected(actions, last));
        } else {
            assert(is_selected(actions, i));
        }
    }
}

/// One action at most is selected.
pub proof fn law_selection_is_unique(actions: Seq<CodeAction>, i: int)
    requires
        is_selected(actions, i),
    ensures
        selected(actions) == Some(i),
{
    let k = selected(actions)->0;
    assert(priority(actions[i]) is Some);
    assert(is_selected(actions, k));
    assert(priority(actions[k]) is Some);
}

/// The selected action adds imports: it is enabled, and its title does not speak of organizing,
/// fixing all, removing or unused imports.
pub proof fn law_selected_action_adds_import(actions: Seq<CodeAction>, i: int)
    requires
        is_selected(actions, i),
    ensures
        adds_import(kind_text(actions[i].kind), actions[i].title@, actions[i].disabled),
        !actions[i].disabled,
        !contains_text(lowered(actions[i].title@), "organize imports"@),
        !contains_text(lowered(actions[i].title@), "fix all"@),
        !contains_text(lowered(actions[i].title@), "remove"@),
        !contains_text(lowered(actions[i].title@), "unused"@),
{
}

/// Where an action names the module that it imports from, the selected one does.
pub proof fn law_specific_action_is_preferred(actions: Seq<CodeAction>, i: int, j: int)
    requires
        is_selected(actions, i),
        0 <= j < actions.len(),
        adds_import(kind_text(actions[j].kind), actions[j].title@, actions[j].disabled),
        names_module(lowered(actions[j].title@)),
    ensures
        names_module(lowered(actions[i].title@)),
{
    assert(priority(actions[j]) == Some(0u8));
}

impl ImportQuickFixTask {
    /// The wait before `attempt`, or the end where there is no such attempt.
    pub open spec fn before(attempt: int) -> ImportQuickFixTask {
        if 0 <= attempt < IMPORT_QUICK_FIX_RETRY_DELAYS_MS@.len() {
            ImportQuickFixTask::Wait {
                attempt: attempt as usize,
                millis: IMPORT_QUICK_FIX_RETRY_DELAYS_MS@[attempt],
            }
        } else {
            ImportQuickFixTask::Finished(Ok(()))
        }
    }

    /// The task ended with the error `message`.
    pub open spec fn failed(message: String) -> ImportQuickFixTask {
        ImportQuickFixTask::Finished(Err(ExternalError { message, cause: None }))
    }

    /// The event answers what the task waits for.
    pub open spec fn expects(self, event: ImportQuickFixEvent) -> bool {
        match self {
            ImportQuickFixTask::Wait { .. } => event matches ImportQuickFixEvent::Waited {
                edits,
                ..
            } && search_fits(edits@),
            ImportQuickFixTask::RequestActions { .. } => event is Actions || event is Failed,
            ImportQuickFixTask::Apply { .. } => event is Applied || event is Failed,
            ImportQuickFixTask::Finished(_) => false,
        }
    }

    /// What the task waits for after the event: actions are asked for around the accepted edits;
    /// the selected one is applied or, where none adds imports, actions are asked for again after
    /// the next wait; a failure ends the task.
    pub open spec fn next(self, event: ImportQuickFixEvent) -> ImportQuickFixTask {
        match (self, event) {
            (_, ImportQuickFixEvent::Failed(reason)) => ImportQuickFixTask::failed(reason),
            (
                ImportQuickFixTask::Wait { attempt, .. },
                ImportQuickFixEvent::Waited { edits, max_point },
            ) => ImportQuickFixTask::RequestActions {
                attempt,
                range: search_range(edits@, max_point),
            },
            (ImportQuickFixTask::RequestActions { attempt, .. }, _) => match selected(event.actions()) {
                Some(index) => ImportQuickFixTask::Apply { attempt, index: index as usize },
                None => ImportQuickFixTask::before(attempt + 1),
            },
            _ => ImportQuickFixTask::Finished(Ok(())),
        }
    }

    /// The wait before the first attempt.
    pub fn start() -> (r: ImportQuickFixTask)
        ensures
            r == ImportQuickFixTask::before(0),
    {
        ImportQuickFixTask::Wait { attempt: 0, millis: IMPORT_QUICK_FIX_RETRY_DELAYS_MS[0] }
    }

    /// Whether the event answers what the task waits for.
    pub fn awaits(&self, event: &ImportQuickFixEvent) -> (r: bool)
        ensures
            r == self.expects(*event),
    {
        match (self, event) {
            (
                ImportQuickFixTask::Wait { .. },
                ImportQuickFixEvent::Waited { edits, max_point },
            ) => checked_search_range(edits.as_slice(), *max_point).is_some(),
            (ImportQuickFixTask::RequestActions { .. }, ImportQuickFixEvent::Actions(_)) => true,
            (ImportQuickFixTask::RequestActions { .. }, ImportQuickFixEvent::Failed(_)) => true,
            (ImportQuickFixTask::Apply { .. }, ImportQuickFixEvent::Applied) => true,
            (ImportQuickFixTask::Apply { .. }, ImportQuickFixEvent::Failed(_)) => true,
            _ => false,
        }
    }

    /// What the task waits for after the event.
    pub fn step(self, event: &ImportQuickFixEvent) -> (r: ImportQuickFixTask)
        requires
            self.expects(*event),
        ensures
            r == self.next(*event),
    {
        if let ImportQuickFixEvent::Failed(reason) = event {
            return ImportQuickFixTask::Finished(Err(ExternalError::new(reason.clone())));
        }
        if let ImportQuickFixEvent::Waited { edits, max_point } = event {
            if let ImportQuickFixTask::Wait { attempt, .. } = self {
                let range = accepted_edit_search_range(edits.as_slice(), *max_point);
                return ImportQuickFixTask::RequestActions { attempt, range };
            }
        }
        match self {
            ImportQuickFixTask::RequestActions { attempt, .. } => {
                let found: Option<usize> = match event {
                    ImportQuickFixEvent::Actions(Some(actions)) => {
                        let index = import_quick_fix_index(actions);
                        proof {
                            if let Some(i) = index {
                                law_selection_is_unique(actions@, i as int);
                                assert(priority(actions@[i as int]) is Some);
                            }
                        }
                        index
                    },
                    _ => None,
                };
                match found {
                    Some(index) => ImportQuickFixTask::Apply { attempt, index },
                    None => {
                        if attempt < IMPORT_QUICK_FIX_RETRY_DELAYS_MS.len() - 1 {
                            ImportQuickFixTask::Wait {
                                attempt: attempt + 1,
                                millis: IMPORT_QUICK_FIX_RETRY_DELAYS_MS[attempt + 1],
                            }
                        } else {
                            ImportQuickFixTask::Finished(Ok(()))
                        }
                    },
                }
            },
            _ => ImportQuickFixTask::Finished(Ok(())),
        }
    }

    /// What the task comes to wait for next once it no longer asks for actions, if the waits and
    /// the attempts from `attempt` on are answered by these events.
    pub open spec fn outcome(
        waits: Seq<ImportQuickFixEvent>,
        answers: Seq<ImportQuickFixEvent>,
        attempt: int,
    ) -> ImportQuickFixTask
        decreases IMPORT_QUICK_FIX_RETRY_DELAYS_MS@.len() - attempt,
    {
        let wait = Self::before(attempt);
        if wait is Wait {
            let answered = wait.next(waits[attempt]).next(answers[attempt]);
            if answered == Self::before(attempt + 1) {
                Self::outcome(waits, answers, attempt + 1)
            } else {
                answered
            }
        } else {
            wait
        }
    }

    /// How many more answers can come.
    pub open spec fn remaining(self) -> int {
        match self {
            ImportQuickFixTask::Wait { attempt, .. } => 2 * (
            IMPORT_QUICK_FIX_RETRY_DELAYS_MS@.len() - attempt) + 1,
            ImportQuickFixTask::RequestActions { attempt, .. } => 2 * (
            IMPORT_QUICK_FIX_RETRY_DELAYS_MS@.len() - attempt),
            ImportQuickFixTask::Apply { .. } => 1,
            ImportQuickFixTask::Finished(_) => 0,
        }
    }

    /// The task is on one of the attempts for which there is a wait.
    pub open spec fn wf(self) -> bool {
        match self {
            ImportQuickFixTask::Wait { attempt, .. } => attempt
                < IMPORT_QUICK_FIX_RETRY_DELAYS_MS@.len(),
            ImportQuickFixTask::RequestActions { attempt, .. } => attempt
                < IMPORT_QUICK_FIX_RETRY_DELAYS_MS@.len(),
            ImportQuickFixTask::Apply { attempt, .. } => attempt
                < IMPORT_QUICK_FIX_RETRY_DELAYS_MS@.len(),
            ImportQuickFixTask::Finished(_) => true,
        }
    }
}

/// Every answer brings the task nearer to its end, so that it asks no more often than there are
/// waits: actions are asked for only after a wait, and each wait is followed by a later attempt
/// or by none. What was applied ends the task well, and a failure ends it with that failure.
pub proof fn law_retries_end(task: ImportQuickFixTask, event: ImportQuickFixEvent)
    requires
        task.wf(),
        task.expects(event),
    ensures
        ImportQuickFixTask::before(0).wf(),
        task.next(event).wf(),
        0 <= task.next(event).remaining() < task.remaining() <= ImportQuickFixTask::before(
            0,
        ).remaining(),
        task.next(event) is RequestActions <==> task is Wait,
        task matches ImportQuickFixTask::Wait { attempt, .. } ==> (task.next(
            event,
        ) matches ImportQuickFixTask::RequestActions { attempt: same, .. } && same == attempt),
        task matches ImportQuickFixTask::RequestActions { attempt, .. } ==> (task.next(
            event,
        ) matches ImportQuickFixTask::Wait { attempt: later, millis } ==> later == attempt + 1
            && millis == IMPORT_QUICK_FIX_RETRY_DELAYS_MS@[later as int]),
        task is Apply ==> task.next(event) is Finished,
        event is Applied ==> task.next(event) == ImportQuickFixTask::Finished(Ok(())),
        event matches ImportQuickFixEvent::Failed(reason) ==> task.next(event)
            == ImportQuickFixTask::failed(reason),
{
}

/// Actions are asked for where the accepted edits now are: the range that is asked about covers
/// every edit, but for the end of the buffer.
pub proof fn law_actions_are_asked_around_edits(
    task: ImportQuickFixTask,
    edits: Vec<AcceptedEdit>,
    max_point: Point,
    i: int,
)
    requires
        task is Wait,
        task.expects(ImportQuickFixEvent::Waited { edits, max_point }),
        0 <= i < edits@.len(),
    ensures
        task.next(ImportQuickFixEvent::Waited { edits, max_point }) matches
            ImportQuickFixTask::RequestActions { range, .. } && range == search_range(
            edits@,
            max_point,
        ) && range.start.row <= edits@[i].range.start.row && (range.end.row
            >= edits@[i].range.end.row || range.end == max_point),
{
    law_search_covers_edits(edits@, max_point, i);
}

/// The answer brings no action that adds imports; a missing answer brings none at all.
pub open spec fn brings_none(answer: ImportQuickFixEvent) -> bool {
    answer is Actions && none_selected(answer.actions())
}

/// `k` is the first of the answers that ends the asking: it is a failure, or it brings an action
/// that adds imports.
pub open spec fn ends_asking(answers: Seq<ImportQuickFixEvent>, k: int) -> bool {
    &&& 0 <= k < answers.len()
    &&& !brings_none(answers[k])
    &&& forall|j: int| 0 <= j < k ==> brings_none(#[trigger] answers[j])
}

/// Whatever the attempts bring, actions, no answer or a failure: the first that brings an action
/// that adds imports has its selected action applied, a failure before that ends the task with
/// that failure, and where neither comes the task ends well with nothing applied.
pub proof fn law_retry_outcome(
    waits: Seq<ImportQuickFixEvent>,
    answers: Seq<ImportQuickFixEvent>,
    k: int,
)
    requires
        waits.len() == IMPORT_QUICK_FIX_RETRY_DELAYS_MS@.len(),
        forall|j: int| 0 <= j < waits.len() ==> (#[trigger] waits[j]) is Waited,
        answers.len() == IMPORT_QUICK_FIX_RETRY_DELAYS_MS@.len(),
        forall|j: int|
            0 <= j < answers.len() ==> (#[trigger] answers[j]) is Actions || answers[j] is Failed,
    ensures
        ends_asking(answers, k) ==> match answers[k] {
            ImportQuickFixEvent::Failed(reason) => ImportQuickFixTask::outcome(waits, answers, 0)
                == ImportQuickFixTask::failed(reason),
            _ => {
                &&& ImportQuickFixTask::outcome(waits, answers, 0) matches ImportQuickFixTask::Apply {
                    attempt,
                    index,
                }
                &&& attempt == k
                &&& is_selected(answers[k].actions(), index as int)
            },
        },
        (forall|j: int| 0 <= j < answers.len() ==> brings_none(#[trigger] answers[j]))
            ==> ImportQuickFixTask::outcome(waits, answers, 0) == ImportQuickFixTask::Finished(Ok(())),
{
    if ends_asking(answers, k) {
        lemma_outcome_at(waits, answers, 0, k);
    }
    if forall|j: int| 0 <= j < answers.len() ==> brings_none(#[trigger] answers[j]) {
        lemma_outcome_none(waits, answers, 0);
    }
}

/// The asking ends at the first answer that ends it.
proof fn lemma_outcome_at(
    waits: Seq<ImportQuickFixEvent>,
    answers: Seq<ImportQuickFixEvent>,
    from: int,
    k: int,
)
    requires
        waits.len() == IMPORT_QUICK_FIX_RETRY_DELAYS_MS@.len(),
        forall|j: int| 0 <= j < waits.len() ==> (#[trigger] waits[j]) is Waited,
        answers.len() == IMPORT_QUICK_FIX_RETRY_DELAYS_MS@.len(),
        0 <= from <= k,
        ends_asking(answers, k),
        answers[k] is Actions || answers[k] is Failed,
    ensures
        match answers[k] {
            ImportQuickFixEvent::Failed(reason) => ImportQuickFixTask::outcome(waits, answers, from)
                == ImportQuickFixTask::failed(reason),
            _ => {
                &&& ImportQuickFixTask::outcome(waits, answers, from) matches ImportQuickFixTask::Apply {
                    attempt,
                    index,
                }
                &&& attempt == k
                &&& is_selected(answers[k].actions(), index as int)
            },
        },
    decreases k - from,
{
    if from < k {
        assert(brings_none(answers[from]));
        lemma_outcome_at(waits, answers, from + 1, k);
    } else if let ImportQuickFixEvent::Actions(Some(actions)) = answers[k] {
        // The selected index is one of the answer's actions, so it can be counted.
        let n = actions.len();
        lemma_selection_exists(actions@);
        let i = choose|i: int| is_selected(actions@, i);
        assert(is_selected(actions@, i));
        law_selection_is_unique(actions@, i);
    }
}

/// Where no answer ends the asking, it ends after the last attempt.
proof fn lemma_outcome_none(
    waits: Seq<ImportQuickFixEvent>,
    answers: Seq<ImportQuickFixEvent>,
    from: int,
)
    requires
        waits.len() == IMPORT_QUICK_FIX_RETRY_DELAYS_MS@.len(),
        forall|j: int| 0 <= j < waits.len() ==> (#[trigger] waits[j]) is Waited,
        answers.len() == IMPORT_QUICK_FIX_RETRY_DELAYS_MS@.len(),
        0 <= from <= answers.len(),
        forall|j: int| 0 <= j < answers.len() ==> brings_none(#[trigger] answers[j]),
    ensures
        ImportQuickFixTask::outcome(waits, answers, from) == ImportQuickFixTask::Finished(Ok(())),
    decreases answers.len() - from,
{
    if from < answers.len() {
        assert(brings_none(answers[from]));
        lemma_outcome_none(waits, answers, from + 1);
    }
}

/// The answers that bring just these actions.
pub open spec fn answers_of(attempts: Seq<Vec<CodeAction>>) -> Seq<ImportQuickFixEvent> {
    attempts.map_values(|actions: Vec<CodeAction>| ImportQuickFixEvent::Actions(Some(actions)))
}

/// The task applies what is selected from the attempts: the selected action of the first attempt
/// that has one, and none if no attempt has one.
pub proof fn law_retry_applies_first_settled(
    waits: Seq<ImportQuickFixEvent>,
    attempts: Seq<Vec<CodeAction>>,
    k: int,
)
    requires
        waits.len() == IMPORT_QUICK_FIX_RETRY_DELAYS_MS@.len(),
        forall|j: int| 0 <= j < waits.len() ==> (#[trigger] waits[j]) is Waited,
        attempts.len() == IMPORT_QUICK_FIX_RETRY_DELAYS_MS@.len(),
    ensures
        is_settled(attempts, k) ==> (ImportQuickFixTask::outcome(
            waits,
            answers_of(attempts),
            0,
        ) matches ImportQuickFixTask::Apply { attempt, index } && attempt == k && is_selected(
            attempts[k]@,
            index as int,
        )),
        (forall|j: int| 0 <= j < attempts.len() ==> none_selected(#[trigger] attempts[j]@))
            ==> ImportQuickFixTask::outcome(waits, answers_of(attempts), 0)
            == ImportQuickFixTask::Finished(Ok(())),
{
    let answers = answers_of(attempts);
    assert forall|j: int| 0 <= j < answers.len() implies brings_none(#[trigger] answers[j])
        == none_selected(attempts[j]@) by {}
    if is_settled(attempts, k) {
        assert(ends_asking(answers, k));
    }
    law_retry_outcome(waits, answers, k);
}

/// A kind matches itself and the kinds below it, but not one that only begins with its name.
pub proof fn law_kind_matches(requested: Seq<char>, next: char, rest: Seq<char>)
    ensures
        kind_matches(requested, requested),
        kind_matches(requested, requested.push(next) + rest) <==> next == '.',
{
    let actual = requested.push(next) + rest;
    assert(actual.subrange(0, requested.len() as int) =~= requested);
    assert(actual[requested.len() as int] == next);
}

// ---------------------------------------------------------------------------
// What is selected and where it is asked for, by titles, kinds and rows
// ---------------------------------------------------------------------------
/// A kind is one that was asked for just if it is the requested one, or the requested one, a dot
/// and anything.
pub proof fn law_kinds_asked_for(requested: Seq<char>, actual: Seq<char>)
    ensures
        kind_matches(requested, actual) <==> (actual == requested || (actual.len()
            > requested.len() && actual.take(requested.len() as int) == requested
            && actual[requested.len() as int] == '.')),
        kind_matches("quickfix"@, "quickfix."@ + actual),
        kind_matches("source"@, "source."@ + actual),
{
    if actual.len() > requested.len() {
        assert(actual.subrange(0, requested.len() as int) =~= actual.take(requested.len() as int));
    }
    reveal_strlit("quickfix");
    reveal_strlit("quickfix.");
    reveal_strlit("source");
    reveal_strlit("source.");
    assert(("quickfix."@ + actual).subrange(0, 8) =~= "quickfix"@);
    assert(("source."@ + actual).subrange(0, 6) =~= "source"@);
}

/// An action adds imports just if it is enabled, its kind is a quick fix, a source action, one below
/// these or not given, its title speaks of imports or its kind of adding missing ones, and its title
/// speaks neither of organizing imports nor of fixing all, removing or unused ones. Capital letters
/// make no difference.
pub proof fn law_import_actions(kind: Option<Seq<char>>, title: Seq<char>, disabled: bool)
    ensures
        adds_import(kind, title, disabled) <==> {
            &&& !disabled
            &&& kind matches Some(k) ==> kind_matches("quickfix"@, k) || kind_matches("source"@, k)
            &&& contains_text(lowered(title), "import"@) || (kind is Some && contains_text(
                lowered(kind->0),
                "addmissingimports"@,
            ))
            &&& !contains_text(lowered(title), "organize imports"@)
            &&& !contains_text(lowered(title), "fix all"@)
            &&& !contains_text(lowered(title), "remove"@)
            &&& !contains_text(lowered(title), "unused"@)
        },
{
}

/// An enabled action whose kind is a quick fix, a source action, one below these or not given, and
/// whose title speaks of imports but not of organizing, fixing all, removing or unused, has a
/// priority; so among actions that hold such a one, one is always selected, and it is no less
/// specific.
pub proof fn law_import_action_is_selected(actions: Seq<CodeAction>, j: int, rest: Seq<char>)
    requires
        0 <= j < actions.len(),
        !actions[j].disabled,
        actions[j].kind matches Some(k) ==> k@ == "quickfix"@ || k@ == "source"@ || k@
            == "quickfix."@ + rest || k@ == "source."@ + rest,
        contains_text(lowered(actions[j].title@), "import"@),
        !contains_text(lowered(actions[j].title@), "organize imports"@),
        !contains_text(lowered(actions[j].title@), "fix all"@),
        !contains_text(lowered(actions[j].title@), "remove"@),
        !contains_text(lowered(actions[j].title@), "unused"@),
    ensures
        priority(actions[j]) is Some,
        !none_selected(actions),
        selected(actions) matches Some(i) && is_selected(actions, i) && priority(actions[i])->0
            <= priority(actions[j])->0,
{
    law_kinds_asked_for("quickfix"@, rest);
    assert(priority(actions[j]) is Some);
    lemma_selection_exists(actions);
    let i = choose|i: int| is_selected(actions, i);
    law_selection_is_unique(actions, i);
}

/// An action that is disabled, of another kind, silent about imports, or about organizing, fixing
/// all, removing or unused ones, has no priority.
pub proof fn law_other_actions_are_left_out(action: CodeAction)
    ensures
        action.disabled ==> priority(action) is None,
        action.kind matches Some(k) ==> !kind_matches("quickfix"@, k@) && !kind_matches(
            "source"@,
            k@,
        ) ==> priority(action) is None,
        !contains_text(lowered(action.title@), "import"@) && (action.kind is None || !contains_text(
            lowered(action.kind->0@),
            "addmissingimports"@,
        )) ==> priority(action) is None,
        contains_text(lowered(action.title@), "organize imports"@) || contains_text(
            lowered(action.title@),
            "fix all"@,
        ) || contains_text(lowered(action.title@), "remove"@) || contains_text(
            lowered(action.title@),
            "unused"@,
        ) ==> priority(action) is None,
{
}

/// Of the actions that add imports those whose title names the module come first, then quick fixes,
/// then those that add all missing imports, then the others.
pub proof fn law_priorities(action: CodeAction)
    requires
        adds_import(kind_text(action.kind), action.title@, action.disabled),
    ensures
        ({
            let words = lowered(action.title@);
            let named = contains_text(words, "import from"@) || contains_text(
                words,
                "add import from"@,
            ) || (words.len() >= "import "@.len() && words.take("import "@.len() as int)
                == "import "@ && contains_text(words, " from "@));
            let fix = action.kind is Some && contains_text(lowered(action.kind->0@), "quickfix"@);
            let missing = action.kind is Some && contains_text(
                lowered(action.kind->0@),
                "addmissingimports"@,
            );
            &&& priority(action) == Some(0u8) <==> named
            &&& priority(action) == Some(1u8) <==> !named && fix
            &&& priority(action) == Some(2u8) <==> !named && !fix && missing
            &&& priority(action) == Some(3u8) <==> !named && !fix && !missing
        }),
{
    let words = lowered(action.title@);
    if words.len() >= "import "@.len() {
        assert(words.subrange(0, "import "@.len() as int) =~= words.take("import "@.len() as int));
    }
}

/// The selected action is the first of those with the lowest priority; none is selected just where
/// no action has one.
pub proof fn law_selection(actions: Seq<CodeAction>, i: int)
    ensures
        none_selected(actions) <==> forall|j: int|
            0 <= j < actions.len() ==> (#[trigger] priority(actions[j])) is None,
        selected(actions) is None <==> none_selected(actions),
        is_selected(actions, i) ==> 0 <= i < actions.len() && priority(actions[i]) is Some && (forall|
            j: int,
        |
            0 <= j < actions.len() && (#[trigger] priority(actions[j])) is Some ==> priority(
                actions[i],
            )->0 <= priority(actions[j])->0) && (forall|j: int|
            0 <= j < i && (#[trigger] priority(actions[j])) is Some ==> priority(actions[i])->0
                < priority(actions[j])->0),
        0 <= i < actions.len() && priority(actions[i]) is Some && (forall|j: int|
            0 <= j < actions.len() && (#[trigger] priority(actions[j])) is Some ==> priority(
                actions[i],
            )->0 <= priority(actions[j])->0) && (forall|j: int|
            0 <= j < i && (#[trigger] priority(actions[j])) is Some ==> priority(actions[i])->0
                < priority(actions[j])->0) ==> is_selected(actions, i),
{
}

/// The text that an edit puts in ends as many rows below the beginning of the edit as it has line
/// feeds, counted in 32 bits.
pub proof fn law_inserted_rows(edit: AcceptedEdit)
    ensures
        inserted_end_row(edit) == edit.range.start.row + (edit.text@.filter(
            |c: char| c == '\n',
        ).len() as u32),
{
    law_row_and_column(edit.text@);
}

/// The least beginning and the greatest end of the edits are those of one of them.
proof fn lemma_rows_are_attained(edits: Seq<AcceptedEdit>)
    requires
        edits.len() > 0,
    ensures
        exists|i: int|
            0 <= i < edits.len() && (#[trigger] edits[i]).range.start.row == least_start_row(edits),
        greatest_end_row(edits) == 0 || exists|i: int|
            0 <= i < edits.len() && ((#[trigger] edits[i]).range.end.row == greatest_end_row(edits)
                || inserted_end_row(edits[i]) == greatest_end_row(edits)),
    decreases edits.len(),
{
    let shorter = edits.drop_last();
    let last = edits.len() - 1;
    assert(edits[last] == edits.last());
    if shorter.len() > 0 {
        lemma_rows_are_attained(shorter);
        let i = choose|i: int|
            0 <= i < shorter.len() && (#[trigger] shorter[i]).range.start.row == least_start_row(
                shorter,
            );
        assert(edits[i] == shorter[i]);
        if greatest_end_row(shorter) != 0 {
            let k = choose|k: int|
                0 <= k < shorter.len() && ((#[trigger] shorter[k]).range.end.row
                    == greatest_end_row(shorter) || inserted_end_row(shorter[k])
                    == greatest_end_row(shorter));
            assert(edits[k] == shorter[k]);
        }
    } else {
        assert(least_start_row(shorter) == u32::MAX);
        assert(greatest_end_row(shorter) == 0);
    }
}

/// Imports are asked for from the beginning of the row three rows above the first edit, but not
/// above the first row, to the column of the buffer's end in the row three rows below the last row
/// of an edit or of its text, but not below the last row. Without edits that is from the beginning.
pub proof fn law_search_margins(edits: Seq<AcceptedEdit>, max_point: Point)
    requires
        search_fits(edits),
    ensures
        ({
            let range = search_range(edits, max_point);
            &&& range.start.column == 0
            &&& range.end.column == max_point.column
            &&& edits.len() == 0 ==> range.start.row == 0 && range.end.row == if max_point.row < 3 {
                max_point.row
            } else {
                3u32
            }
            &&& edits.len() > 0 ==> exists|i: int|
                {
                    &&& 0 <= i < edits.len()
                    &&& forall|j: int|
                        0 <= j < edits.len() ==> edits[i].range.start.row
                            <= #[trigger] edits[j].range.start.row
                    &&& range.start.row == if (#[trigger] edits[i]).range.start.row < 3 {
                        0
                    } else {
                        edits[i].range.start.row - 3
                    }
                }
            &&& edits.len() > 0 ==> exists|i: int, bottom: int|
                {
                    &&& 0 <= i < edits.len()
                    &&& #[trigger] bottoms(edits[i], bottom)
                    &&& forall|j: int|
                        0 <= j < edits.len() ==> #[trigger] edits[j].range.end.row <= bottom
                            && inserted_end_row(edits[j]) <= bottom
                    &&& range.end.row == if bottom + 3 < max_point.row {
                        bottom + 3
                    } else {
                        max_point.row as int
                    }
                }
        }),
{
    if edits.len() > 0 {
        lemma_rows_are_attained(edits);
        assert forall|j: int| 0 <= j < edits.len() implies least_start_row(edits)
            <= #[trigger] edits[j].range.start.row && edits[j].range.end.row <= greatest_end_row(edits)
            && inserted_end_row(edits[j]) <= greatest_end_row(edits) by {
            lemma_row_bounds(edits, j);
        }
        let first = choose|i: int|
            0 <= i < edits.len() && (#[trigger] edits[i]).range.start.row == least_start_row(edits);
        lemma_row_bounds(edits, first);
        assert(inserted_end_row(edits[first]) <= greatest_end_row(edits));
        let bottom = greatest_end_row(edits);
        if bottom == 0 {
            lemma_row_bounds(edits, 0);
            assert(bottoms(edits[0], bottom));
        } else {
            let last = choose|i: int|
                0 <= i < edits.len() && ((#[trigger] edits[i]).range.end.row == bottom
                    || inserted_end_row(edits[i]) == bottom);
            assert(bottoms(edits[last], bottom));
        }
        assert forall|j: int| 0 <= j < edits.len() implies #[trigger] edits[j].range.end.row <= bottom
            && inserted_end_row(edits[j]) <= bottom by {
            lemma_row_bounds(edits, j);
        }
    }
}

/// `row` is the last row of the edit, or of the text that it puts in.
pub open spec fn bottoms(edit: AcceptedEdit, row: int) -> bool {
    edit.range.end.row == row || inserted_end_row(edit) == row
}

/// The rows around the edits can be counted just if three rows below each of them, and below the
/// text that it puts in, there are rows of 32 bits.
pub proof fn law_rows_around_edits(edits: Seq<AcceptedEdit>)
    ensures
        search_fits(edits) <==> forall|i: int|
            0 <= i < edits.len() ==> (#[trigger] edits[i]).range.end.row + 3 <= u32::MAX
                && inserted_end_row(edits[i]) + 3 <= u32::MAX,
{
    if search_fits(edits) {
        assert forall|i: int| 0 <= i < edits.len() implies (#[trigger] edits[i]).range.end.row + 3
            <= u32::MAX && inserted_end_row(edits[i]) + 3 <= u32::MAX by {
            lemma_row_bounds(edits, i);
        }
    }
    if forall|i: int|
        0 <= i < edits.len() ==> (#[trigger] edits[i]).range.end.row + 3 <= u32::MAX
            && inserted_end_row(edits[i]) + 3 <= u32::MAX {
        if edits.len() > 0 {
            lemma_rows_are_attained(edits);
        }
        assert forall|i: int| 0 <= i < edits.len() implies inserted_end_row(#[trigger] edits[i])
            <= u32::MAX by {
            assert(edits[i].range.end.row + 3 <= u32::MAX);
        }
    }
}

/// The task waits 100, 250, 500 and 900 milliseconds before its attempts, and there are no more.
pub proof fn law_waits()
    ensures
        ImportQuickFixTask::before(0) == (ImportQuickFixTask::Wait { attempt: 0, millis: 100 }),
        ImportQuickFixTask::before(1) == (ImportQuickFixTask::Wait { attempt: 1, millis: 250 }),
        ImportQuickFixTask::before(2) == (ImportQuickFixTask::Wait { attempt: 2, millis: 500 }),
        ImportQuickFixTask::before(3) == (ImportQuickFixTask::Wait { attempt: 3, millis: 900 }),
        ImportQuickFixTask::before(4) == ImportQuickFixTask::Finished(Ok(())),
{
}

/// What each answer leads to: a wait to asking around the edits as they now stand; actions to the
/// selected one, in the same attempt, or else to the next wait, and so does a missing answer; an
/// applied action to a good end, and a failure to an end with its reason.
pub proof fn law_quick_fix_steps(task: ImportQuickFixTask, event: ImportQuickFixEvent)
    requires
        task.expects(event),
    ensures
        task matches ImportQuickFixTask::Wait { attempt, .. } ==> (
        event matches ImportQuickFixEvent::Waited { edits, max_point } && task.next(event) == (
        ImportQuickFixTask::RequestActions { attempt, range: search_range(edits@, max_point) })),
        task matches ImportQuickFixTask::RequestActions { attempt, .. } ==> (
        event matches ImportQuickFixEvent::Actions(Some(actions)) ==> (selected(
            actions@,
        ) matches Some(i) ==> task.next(event) == (ImportQuickFixTask::Apply {
            attempt,
            index: i as usize,
        })) && (selected(actions@) is None ==> task.next(event) == ImportQuickFixTask::before(
            attempt + 1,
        ))),
        task matches ImportQuickFixTask::RequestActions { attempt, .. } ==> (
        event matches ImportQuickFixEvent::Actions(None) ==> task.next(event)
            == ImportQuickFixTask::before(attempt + 1)),
        event matches ImportQuickFixEvent::Failed(reason) ==> (
        task.next(event) matches ImportQuickFixTask::Finished(Err(error)) && error.message == reason
            && error.cause is None),
        event is Applied ==> task.next(event) == ImportQuickFixTask::Finished(Ok(())),
        task is Wait <==> event is Waited,
        task is Apply <== event is Applied,
        !(task is Finished),
{
}

/// A kind is its name, and a kind that may be missing is its name or missing.
pub proof fn law_kind_names(kind: CodeActionKind, held: Option<CodeActionKind>)
    ensures
        kind@ == kind.value@,
        kind_ref_text(Some(&kind)) == Some(kind.value@),
        kind_ref_text(None) is None,
        held is Some ==> kind_text(held) == Some(held->0.value@),
        held is None ==> kind_text(held) is None,
{
}

/// A wait is answered by the edits where rows can be counted around them, asking by actions, no
/// answer or a failure, and applying by success or failure; nothing else is an answer.
pub proof fn law_quick_fix_answers(
    task: ImportQuickFixTask,
    edits: Vec<AcceptedEdit>,
    max_point: Point,
    actions: Option<Vec<CodeAction>>,
    reason: String,
)
    ensures
        task.expects(ImportQuickFixEvent::Waited { edits, max_point }) <==> task is Wait
            && search_fits(edits@),
        task.expects(ImportQuickFixEvent::Actions(actions)) <==> task is RequestActions,
        task.expects(ImportQuickFixEvent::Applied) <==> task is Apply,
        task.expects(ImportQuickFixEvent::Failed(reason)) <==> task is RequestActions
            || task is Apply,
{
}

/// An attempt settles the search just if it is the first one with an action that adds imports.
pub proof fn law_settling(attempts: Seq<Vec<CodeAction>>, k: int)
    ensures
        is_settled(attempts, k) <==> 0 <= k < attempts.len() && (exists|i: int|
            0 <= i < attempts[k]@.len() && (#[trigger] priority(attempts[k]@[i])) is Some) && (forall|
            j: int,
            i: int,
        |
            0 <= j < k && 0 <= i < attempts[j]@.len() ==> (#[trigger] priority(attempts[j]@[i])) is None),
{
    if is_settled(attempts, k) {
        assert forall|j: int, i: int| 0 <= j < k && 0 <= i < attempts[j]@.len() implies (
        #[trigger] priority(attempts[j]@[i])) is None by {
            assert(none_selected(attempts[j]@));
        }
    }
}

} // verus!
