//! What surrounds the cursor: recent changes, related files and open buffers.
use crate::distinct::any_is;
#[allow(unused_imports)]
use crate::distinct::{distinct, law_distinct};
use crate::json::{Fields, Json};
#[allow(unused_imports)]
use crate::json::{field, json_views, lemma_lookup_push, no_fields, string_views, JsonView};
use crate::path::relative_cursor_path;
#[allow(unused_imports)]
use crate::path::{optional_str, optional_text, relative_path};
use crate::text::{head_of, is_blank};
#[allow(unused_imports)]
use crate::text::{first_lines, text_lines, trimmed};
use std::ops::Range;
use vstd::prelude::*;

verus! {

// ---------------------------------------------------------------------------
// Recent changes
// ---------------------------------------------------------------------------
/// How many of the latest changes are sent.
pub const MAX_DIFF_EVENTS: usize = 20;

/// A change of a buffer: the path of its file and the difference.
#[derive(Debug, PartialEq, Eq)]
pub struct BufferChange {
    pub path: String,
    pub diff: String,
}

/// The changes of one file.
#[derive(Debug, PartialEq, Eq)]
pub struct FileDiffHistory {
    pub file_name: String,
    pub diff_history: Vec<String>,
}

impl View for FileDiffHistory {
    type V = (Seq<char>, Seq<Seq<char>>);

    open spec fn view(&self) -> (Seq<char>, Seq<Seq<char>>) {
        (self.file_name@, string_views(self.diff_history@))
    }
}

/// The latest changes, oldest first.
pub open spec fn recent(events: Seq<BufferChange>) -> Seq<BufferChange> {
    if events.len() <= MAX_DIFF_EVENTS {
        events
    } else {
        events.skip(events.len() - MAX_DIFF_EVENTS)
    }
}

/// The paths of the changes.
pub open spec fn change_paths(events: Seq<BufferChange>) -> Seq<Seq<char>> {
    Seq::new(events.len(), |i: int| events[i].path@)
}

/// The differences of the changes to `path`, in their order.
pub open spec fn diffs_of(events: Seq<BufferChange>, path: Seq<char>) -> Seq<Seq<char>>
    decreases events.len(),
{
    if events.len() == 0 {
        Seq::empty()
    } else {
        let before = diffs_of(events.drop_last(), path);
        if events.last().path@ == path {
            before.push(events.last().diff@)
        } else {
            before
        }
    }
}

/// The changes by file; the files stand in the order of their first change.
pub open spec fn grouped(events: Seq<BufferChange>) -> Seq<(Seq<char>, Seq<Seq<char>>)> {
    let paths = distinct(change_paths(events));
    Seq::new(paths.len(), |i: int| (paths[i], diffs_of(events, paths[i])))
}

/// What each of the histories holds.
pub open spec fn history_views(histories: Seq<FileDiffHistory>) -> Seq<(Seq<char>, Seq<Seq<char>>)> {
    Seq::new(histories.len(), |i: int| histories[i]@)
}

/// The index of the history of `path`.
fn history_index(histories: &Vec<FileDiffHistory>, path: &String) -> (r: Option<usize>)
    ensures
        match r {
            Some(i) => i < histories@.len() && histories@[i as int].file_name@ == path@ && forall|
                k: int,
            |
                0 <= k < i ==> #[trigger] histories@[k].file_name@ != path@,
            None => forall|k: int|
                0 <= k < histories@.len() ==> #[trigger] histories@[k].file_name@ != path@,
        },
{
    let mut i: usize = 0;
    while i < histories.len()
        invariant
            i <= histories@.len(),
            forall|k: int| 0 <= k < i ==> #[trigger] histories@[k].file_name@ != path@,
        decreases histories@.len() - i,
    {
        if histories[i].file_name == *path {
            return Some(i);
        }
        i += 1;
    }
    None
}

/// One more change goes to the history of its file.
proof fn lemma_grouped_push(events: Seq<BufferChange>, event: BufferChange)
    ensures
        ({
            let before = grouped(events);
            let after = grouped(events.push(event));
            let paths = distinct(change_paths(events));
            if paths.contains(event.path@) {
                &&& after.len() == before.len()
                &&& forall|i: int|
                    0 <= i < before.len() ==> #[trigger] after[i] == if before[i].0 == event.path@ {
                        (before[i].0, before[i].1.push(event.diff@))
                    } else {
                        before[i]
                    }
            } else {
                after == before.push((event.path@, Seq::empty().push(event.diff@)))
            }
        }),
{
    let more = events.push(event);
    let paths = distinct(change_paths(events));
    assert(change_paths(more).drop_last() == change_paths(events));
    assert(more.drop_last() == events);
    law_distinct(change_paths(events));
    if !paths.contains(event.path@) {
        lemma_no_diffs(events, event.path@);
        assert forall|i: int| 0 <= i < paths.len() implies #[trigger] paths[i] != event.path@ by {
            if paths[i] == event.path@ {
                assert(paths.contains(event.path@));
            }
        }
        assert(grouped(more) =~= grouped(events).push((event.path@, Seq::empty().push(event.diff@))));
    }
}

/// A path without changes has no differences.
proof fn lemma_no_diffs(events: Seq<BufferChange>, path: Seq<char>)
    requires
        !change_paths(events).contains(path),
    ensures
        diffs_of(events, path) == Seq::<Seq<char>>::empty(),
    decreases events.len(),
{
    if events.len() > 0 {
        let shorter = events.drop_last();
        assert(change_paths(events)[events.len() - 1] == events.last().path@);
        if change_paths(shorter).contains(path) {
            let i = choose|i: int| 0 <= i < shorter.len() && change_paths(shorter)[i] == path;
            assert(change_paths(events)[i] == path);
        }
        lemma_no_diffs(shorter, path);
    }
}

/// The latest changes by file.
pub fn cursor_file_diff_histories(events: &[BufferChange]) -> (r: Vec<FileDiffHistory>)
    ensures
        history_views(r@) == grouped(recent(events@)),
{
    let first: usize = if events.len() <= MAX_DIFF_EVENTS {
        0
    } else {
        events.len() - MAX_DIFF_EVENTS
    };
    let ghost latest = recent(events@);
    let mut histories: Vec<FileDiffHistory> = Vec::new();
    let mut i: usize = first;
    assert(latest.take(0) == Seq::<BufferChange>::empty());
    assert(history_views(histories@) == grouped(latest.take(0)));
    while i < events.len()
        invariant
            first <= i <= events@.len(),
            latest == recent(events@),
            latest.len() == events@.len() - first,
            forall|k: int| 0 <= k < latest.len() ==> latest[k] == #[trigger] events@[first + k],
            history_views(histories@) == grouped(latest.take(i - first)),
        decreases events@.len() - i,
    {
        let ghost before = histories@;
        let ghost done = latest.take(i - first);
        let event = &events[i];
        proof {
            assert(latest[i - first] == events@[first + (i - first)]);
            assert(latest.take(i + 1 - first) == done.push(*event));
            lemma_grouped_push(done, *event);
            law_distinct(change_paths(done));
        }
        match history_index(&histories, &event.path) {
            Some(k) => {
                let diff: String = event.diff.clone();
                histories[k].diff_history.push(diff);
                proof {
                    let paths = distinct(change_paths(done));
                    assert(history_views(before).len() == paths.len());
                    assert(history_views(before)[k as int] == before[k as int]@);
                    assert(grouped(done)[k as int].0 == paths[k as int]);
                    assert(paths[k as int] == event.path@);
                    assert(paths.contains(event.path@));
                    assert(histories@[k as int]@.1 == before[k as int]@.1.push(event.diff@));
                    assert(history_views(histories@) =~= grouped(done.push(*event))) by {
                        assert forall|j: int| 0 <= j < histories@.len() implies history_views(
                            histories@,
                        )[j] == #[trigger] grouped(done.push(*event))[j] by {
                            assert(history_views(before)[j] == before[j]@);
                            assert(grouped(done)[j].0 == paths[j]);
                        }
                    }
                }
            },
            None => {
                let mut diffs: Vec<String> = Vec::new();
                diffs.push(event.diff.clone());
                histories.push(
                    FileDiffHistory { file_name: event.path.clone(), diff_history: diffs },
                );
                proof {
                    let paths = distinct(change_paths(done));
                    if paths.contains(event.path@) {
                        let j = choose|j: int| 0 <= j < paths.len() && paths[j] == event.path@;
                        assert(history_views(before)[j] == before[j]@);
                        assert(grouped(done)[j].0 == paths[j]);
                        assert(before[j].file_name@ == event.path@);
                    }
                    assert(string_views(diffs@) =~= Seq::empty().push(event.diff@));
                    assert(history_views(histories@) =~= history_views(before).push(
                        (event.path@, Seq::empty().push(event.diff@)),
                    ));
                }
            },
        }
        i += 1;
    }
    assert(latest.take(i - first) == latest);
    histories
}

/// A history as it is sent.
pub open spec fn history_value(history: (Seq<char>, Seq<Seq<char>>)) -> JsonView {
    JsonView::Object(
        no_fields().push(("fileName"@, JsonView::Str(history.0))).push(
            ("diffHistory"@, strings_value(history.1)),
        ).push(
            (
                "diffHistoryTimestamps"@,
                JsonView::Array(Seq::new(history.1.len(), |i: int| JsonView::Int(0))),
            ),
        ),
    )
}

/// Strings as they are sent.
pub open spec fn strings_value(strings: Seq<Seq<char>>) -> JsonView {
    JsonView::Array(strings.map_values(|s: Seq<char>| JsonView::Str(s)))
}

/// The histories as they are sent.
pub open spec fn histories_value(histories: Seq<(Seq<char>, Seq<Seq<char>>)>) -> JsonView {
    JsonView::Array(Seq::new(histories.len(), |i: int| history_value(histories[i])))
}

/// The histories as they are sent.
pub fn file_diff_histories_json(histories: &Vec<FileDiffHistory>) -> (r: Json)
    ensures
        r@ == histories_value(history_views(histories@)),
{
    let mut out: Vec<Json> = Vec::new();
    let mut i: usize = 0;
    while i < histories.len()
        invariant
            i <= histories@.len(),
            out@.len() == i,
            forall|k: int| 0 <= k < i ==> #[trigger] out@[k]@ == history_value(histories@[k]@),
        decreases histories@.len() - i,
    {
        let history = &histories[i];
        let value = Fields::new().with("fileName", Json::string(history.file_name.as_str())).with(
            "diffHistory",
            Json::strings(&history.diff_history),
        ).with("diffHistoryTimestamps", Json::zeros(history.diff_history.len())).object();
        out.push(value);
        i += 1;
    }
    assert(json_views(out@) =~= histories_value(history_views(histories@))->Array_0);
    Json::array(out)
}

/// The differences that the first history of `path` holds.
pub open spec fn history_of(
    histories: Seq<(Seq<char>, Seq<Seq<char>>)>,
    path: Seq<char>,
) -> Seq<Seq<char>>
    decreases histories.len(),
{
    if histories.len() == 0 {
        Seq::empty()
    } else if histories.first().0 == path {
        histories.first().1
    } else {
        history_of(histories.drop_first(), path)
    }
}

/// The differences of `path` as they are sent.
pub fn diff_history_of(histories: &Vec<FileDiffHistory>, path: &String) -> (r: Json)
    ensures
        r@ == strings_value(history_of(history_views(histories@), path@)),
{
    let ghost views = history_views(histories@);
    let mut i: usize = 0;
    assert(views.skip(0) == views);
    while i < histories.len()
        invariant
            i <= histories@.len(),
            views == history_views(histories@),
            history_of(views, path@) == history_of(views.skip(i as int), path@),
        decreases histories@.len() - i,
    {
        assert(views.skip(i as int).first() == histories@[i as int]@);
        if histories[i].file_name == *path {
            return Json::strings(&histories[i].diff_history);
        }
        assert(views.skip(i as int).drop_first() == views.skip(i + 1));
        i += 1;
    }
    let r = Json::empty_array();
    assert(r@->Array_0 =~= strings_value(history_of(views, path@))->Array_0);
    r
}

/// A history is found where there is one.
proof fn lemma_history_of(histories: Seq<(Seq<char>, Seq<Seq<char>>)>, path: Seq<char>)
    ensures
        (exists|i: int|
            0 <= i < histories.len() && (#[trigger] histories[i]).0 == path && histories[i].1
                == history_of(histories, path)) || (history_of(histories, path).len() == 0 && forall|
            i: int,
        |
            0 <= i < histories.len() ==> (#[trigger] histories[i]).0 != path),
    decreases histories.len(),
{
    if histories.len() > 0 {
        if histories.first().0 == path {
            assert(histories[0].0 == path);
        } else {
            let rest = histories.drop_first();
            lemma_history_of(rest, path);
            if exists|i: int|
                0 <= i < rest.len() && (#[trigger] rest[i]).0 == path && rest[i].1 == history_of(
                    histories,
                    path,
                ) {
                let i = choose|i: int|
                    0 <= i < rest.len() && (#[trigger] rest[i]).0 == path && rest[i].1
                        == history_of(histories, path);
                assert(histories[i + 1] == rest[i]);
            } else {
                assert forall|i: int| 0 <= i < histories.len() implies (
                #[trigger] histories[i]).0 != path by {
                    if i > 0 {
                        assert(rest[i - 1] == histories[i]);
                    }
                }
            }
        }
    }
}

/// Grouping loses nothing and mixes nothing: each changed file has one history, which holds the
/// differences of its changes in their order, and no other file has one.
pub proof fn law_grouped(events: Seq<BufferChange>, path: Seq<char>)
    ensures
        history_of(grouped(events), path) == diffs_of(events, path),
        change_paths(events).contains(path) <==> exists|i: int|
            0 <= i < grouped(events).len() && (#[trigger] grouped(events)[i]).0 == path,
        forall|i: int, j: int|
            0 <= i < j < grouped(events).len() ==> (#[trigger] grouped(events)[i]).0 != (
            #[trigger] grouped(events)[j]).0,
{
    let paths = distinct(change_paths(events));
    law_distinct(change_paths(events));
    lemma_history_of(grouped(events), path);
    if change_paths(events).contains(path) {
        let i = choose|i: int| 0 <= i < paths.len() && paths[i] == path;
        assert(grouped(events)[i].0 == path);
    } else {
        lemma_no_diffs(events, path);
        assert forall|i: int| 0 <= i < grouped(events).len() implies (#[trigger] grouped(events)[i]).0
            != path by {
            assert(paths.contains(paths[i]));
        }
        assert(history_of(grouped(events), path) =~= Seq::empty());
    }
}

// ---------------------------------------------------------------------------
// Related files
// ---------------------------------------------------------------------------
/// Some rows of a file.
#[derive(Debug, PartialEq, Eq)]
pub struct RelatedExcerpt {
    pub row_range: Range<u32>,
    pub text: String,
}

/// A file that has to do with what is edited.
#[derive(Debug, PartialEq, Eq)]
pub struct RelatedFile {
    pub path: String,
    pub excerpts: Vec<RelatedExcerpt>,
}

/// Some text of a file, and the lines, counted from one, that it covers.
#[derive(Debug, PartialEq, Eq)]
pub struct VisibleRange {
    pub text: String,
    pub start_line: i32,
    pub end_line: i32,
}

/// A file of which some ranges are sent.
#[derive(Debug, PartialEq, Eq)]
pub struct AdditionalFile {
    pub path: String,
    pub ranges: Vec<VisibleRange>,
}

/// What a [`VisibleRange`] holds: its text, first line and last line.
pub type RangeView = (Seq<char>, int, int);

impl View for VisibleRange {
    type V = RangeView;

    open spec fn view(&self) -> RangeView {
        (self.text@, self.start_line as int, self.end_line as int)
    }
}

/// What each of the ranges holds.
pub open spec fn range_views(ranges: Seq<VisibleRange>) -> Seq<RangeView> {
    Seq::new(ranges.len(), |i: int| ranges[i]@)
}

/// What an [`AdditionalFile`] holds: its path and its ranges.
pub type FileView = (Seq<char>, Seq<RangeView>);

impl View for AdditionalFile {
    type V = FileView;

    open spec fn view(&self) -> FileView {
        (self.path@, range_views(self.ranges@))
    }
}

/// What each of the files holds.
pub open spec fn file_views(files: Seq<AdditionalFile>) -> Seq<FileView> {
    Seq::new(files.len(), |i: int| files[i]@)
}

/// A row as a signed number of 32 bits.
pub open spec fn signed_row(row: u32) -> int {
    if row <= i32::MAX {
        row as int
    } else {
        row - 0x1_0000_0000
    }
}

/// A row as a signed number of 32 bits.
fn to_signed(row: u32) -> (r: i32)
    ensures
        r == signed_row(row),
{
    if row <= 0x7fff_ffff {
        row as i32
    } else {
        -((u32::MAX - row) as i32) - 1
    }
}

/// The first line of the excerpt, counted from one, is a signed number of 32 bits.
pub open spec fn excerpt_fits(excerpt: RelatedExcerpt) -> bool {
    signed_row(excerpt.row_range.start) + 1 <= i32::MAX
}

/// The first lines of all excerpts are signed numbers of 32 bits.
pub open spec fn related_files_fit(files: Seq<RelatedFile>) -> bool {
    forall|i: int, k: int|
        0 <= i < files.len() && 0 <= k < files[i].excerpts@.len() ==> excerpt_fits(
            #[trigger] files[i].excerpts@[k],
        )
}

/// Whether the first lines of all excerpts are signed numbers of 32 bits.
pub fn check_related_files(files: &[RelatedFile]) -> (r: bool)
    ensures
        r == related_files_fit(files@),
{
    let mut i: usize = 0;
    while i < files.len()
        invariant
            i <= files@.len(),
            forall|j: int, k: int|
                0 <= j < i && 0 <= k < files@[j].excerpts@.len() ==> excerpt_fits(
                    #[trigger] files@[j].excerpts@[k],
                ),
        decreases files@.len() - i,
    {
        let file = &files[i];
        let mut k: usize = 0;
        while k < file.excerpts.len()
            invariant
                i < files@.len(),
                *file == files@[i as int],
                k <= file.excerpts@.len(),
                forall|j: int| 0 <= j < k ==> excerpt_fits(#[trigger] file.excerpts@[j]),
            decreases file.excerpts@.len() - k,
        {
            if to_signed(file.excerpts[k].row_range.start) == i32::MAX {
                assert(!excerpt_fits(files@[i as int].excerpts@[k as int]));
                return false;
            }
            k += 1;
        }
        i += 1;
    }
    true
}

/// An excerpt as a range: its rows, of which the last is not part of it, as lines.
pub open spec fn excerpt_range(excerpt: RelatedExcerpt) -> RangeView {
    (excerpt.text@, signed_row(excerpt.row_range.start) + 1, signed_row(excerpt.row_range.end))
}

/// A related file with all its excerpts.
pub open spec fn related_file_view(file: RelatedFile) -> FileView {
    (file.path@, Seq::new(file.excerpts@.len(), |k: int| excerpt_range(file.excerpts@[k])))
}

/// The ranges of a related file.
fn excerpt_ranges(file: &RelatedFile) -> (r: Vec<VisibleRange>)
    requires
        forall|k: int|
            0 <= k < file.excerpts@.len() ==> excerpt_fits(#[trigger] file.excerpts@[k]),
    ensures
        range_views(r@) == related_file_view(*file).1,
{
    let mut ranges: Vec<VisibleRange> = Vec::new();
    let mut k: usize = 0;
    while k < file.excerpts.len()
        invariant
            k <= file.excerpts@.len(),
            forall|j: int|
                0 <= j < file.excerpts@.len() ==> excerpt_fits(#[trigger] file.excerpts@[j]),
            ranges@.len() == k,
            forall|j: int| 0 <= j < k ==> #[trigger] ranges@[j]@ == excerpt_range(file.excerpts@[j]),
        decreases file.excerpts@.len() - k,
    {
        let excerpt = &file.excerpts[k];
        assert(excerpt_fits(file.excerpts@[k as int]));
        let start: i32 = to_signed(excerpt.row_range.start);
        let end: i32 = to_signed(excerpt.row_range.end);
        ranges.push(
            VisibleRange { text: excerpt.text.clone(), start_line: start + 1, end_line: end },
        );
        k += 1;
    }
    ranges
}

/// The related files with their excerpts.
pub fn cursor_additional_files(related_files: &[RelatedFile]) -> (r: Vec<AdditionalFile>)
    requires
        related_files_fit(related_files@),
    ensures
        file_views(r@) == related_files@.map_values(|f: RelatedFile| related_file_view(f)),
        r@.len() == related_files@.len(),
        forall|i: int|
            0 <= i < r@.len() ==> (#[trigger] r@[i]).path@ == related_files@[i].path@
                && r@[i].ranges@.len() == related_files@[i].excerpts@.len(),
        forall|i: int, k: int|
            0 <= i < r@.len() && 0 <= k < r@[i].ranges@.len() ==> (
            #[trigger] r@[i].ranges@[k]).text@ == related_files@[i].excerpts@[k].text@,
{
    let mut files: Vec<AdditionalFile> = Vec::new();
    let mut i: usize = 0;
    while i < related_files.len()
        invariant
            i <= related_files@.len(),
            related_files_fit(related_files@),
            files@.len() == i,
            forall|k: int| 0 <= k < i ==> #[trigger] files@[k]@ == related_file_view(related_files@[k]),
        decreases related_files@.len() - i,
    {
        let file = &related_files[i];
        assert forall|k: int| 0 <= k < file.excerpts@.len() implies excerpt_fits(
            #[trigger] file.excerpts@[k],
        ) by {
            assert(related_files@[i as int].excerpts@[k] == file.excerpts@[k]);
        }
        let ranges = excerpt_ranges(file);
        files.push(AdditionalFile { path: file.path.clone(), ranges });
        i += 1;
    }
    proof {
        assert(file_views(files@) =~= related_files@.map_values(
            |f: RelatedFile| related_file_view(f),
        ));
        law_excerpts_are_kept(related_files@, files@);
    }
    files
}

/// A range of lines as it is sent.
pub open spec fn lines_value(range: RangeView) -> JsonView {
    JsonView::Object(
        no_fields().push(("startLineNumber"@, JsonView::Int(range.1))).push(
            ("endLineNumberInclusive"@, JsonView::Int(range.2)),
        ),
    )
}

/// A file as it is sent.
pub open spec fn additional_file_value(file: FileView) -> JsonView {
    JsonView::Object(
        no_fields().push(("relativeWorkspacePath"@, JsonView::Str(file.0))).push(
            ("isOpen"@, JsonView::Bool(true)),
        ).push(
            (
                "visibleRangeContent"@,
                JsonView::Array(file.1.map_values(|r: RangeView| JsonView::Str(r.0))),
            ),
        ).push(
            (
                "startLineNumberOneIndexed"@,
                JsonView::Array(file.1.map_values(|r: RangeView| JsonView::Int(r.1))),
            ),
        ).push(
            (
                "visibleRanges"@,
                JsonView::Array(file.1.map_values(|r: RangeView| lines_value(r))),
            ),
        ),
    )
}

/// The files as they are sent.
pub open spec fn additional_files_value(files: Seq<FileView>) -> JsonView {
    JsonView::Array(files.map_values(|f: FileView| additional_file_value(f)))
}

impl AdditionalFile {
    /// The file as it is sent.
    pub fn to_json(&self) -> (r: Json)
        ensures
            r@ == additional_file_value(self@),
    {
        let mut contents: Vec<Json> = Vec::new();
        let mut starts: Vec<Json> = Vec::new();
        let mut lines: Vec<Json> = Vec::new();
        let mut i: usize = 0;
        while i < self.ranges.len()
            invariant
                i <= self.ranges@.len(),
                contents@.len() == i,
                starts@.len() == i,
                lines@.len() == i,
                forall|k: int| 0 <= k < i ==> #[trigger] contents@[k]@ == JsonView::Str(self.ranges@[k]@.0),
                forall|k: int| 0 <= k < i ==> #[trigger] starts@[k]@ == JsonView::Int(self.ranges@[k]@.1),
                forall|k: int| 0 <= k < i ==> #[trigger] lines@[k]@ == lines_value(self.ranges@[k]@),
            decreases self.ranges@.len() - i,
        {
            let range = &self.ranges[i];
            contents.push(Json::string(range.text.as_str()));
            starts.push(Json::Int(range.start_line as i128));
            lines.push(
                Fields::new().with("startLineNumber", Json::Int(range.start_line as i128)).with(
                    "endLineNumberInclusive",
                    Json::Int(range.end_line as i128),
                ).object(),
            );
            i += 1;
        }
        assert(json_views(contents@) =~= self@.1.map_values(|r: RangeView| JsonView::Str(r.0)));
        assert(json_views(starts@) =~= self@.1.map_values(|r: RangeView| JsonView::Int(r.1)));
        assert(json_views(lines@) =~= self@.1.map_values(|r: RangeView| lines_value(r)));
        Fields::new().with("relativeWorkspacePath", Json::string(self.path.as_str())).with(
            "isOpen",
            Json::Bool(true),
        ).with("visibleRangeContent", Json::array(contents)).with(
            "startLineNumberOneIndexed",
            Json::array(starts),
        ).with("visibleRanges", Json::array(lines)).object()
    }
}

/// The files as they are sent.
pub fn additional_files_json(files: &Vec<AdditionalFile>) -> (r: Json)
    ensures
        r@ == additional_files_value(file_views(files@)),
{
    let mut out: Vec<Json> = Vec::new();
    let mut i: usize = 0;
    while i < files.len()
        invariant
            i <= files@.len(),
            out@.len() == i,
            forall|k: int| 0 <= k < i ==> #[trigger] out@[k]@ == additional_file_value(files@[k]@),
        decreases files@.len() - i,
    {
        out.push(files[i].to_json());
        i += 1;
    }
    assert(json_views(out@) =~= additional_files_value(file_views(files@))->Array_0);
    Json::array(out)
}

/// An excerpt as a search result.
pub open spec fn code_result_value(path: Seq<char>, excerpt: RelatedExcerpt) -> JsonView {
    JsonView::Object(
        no_fields().push(
            (
                "codeBlock"@,
                JsonView::Object(
                    no_fields().push(("relativeWorkspacePath"@, JsonView::Str(path))).push(
                        (
                            "range"@,
                            JsonView::Object(
                                no_fields().push(
                                    ("startPosition"@, row_value(excerpt.row_range.start)),
                                ).push(("endPosition"@, row_value(excerpt.row_range.end))),
                            ),
                        ),
                    ).push(("contents"@, JsonView::Str(excerpt.text@))),
                ),
            ),
        ).push(("score"@, JsonView::Decimal { mantissa: 8, scale: 1 })),
    )
}

/// The beginning of a row as it is sent.
pub open spec fn row_value(row: u32) -> JsonView {
    JsonView::Object(
        no_fields().push(("line"@, JsonView::Int(row as int))).push(("column"@, JsonView::Int(0))),
    )
}

/// The excerpts of the files, one after the other, as search results.
pub open spec fn code_results(files: Seq<RelatedFile>) -> Seq<JsonView>
    decreases files.len(),
{
    if files.len() == 0 {
        Seq::empty()
    } else {
        code_results(files.drop_last()) + files.last().excerpts@.map_values(
            |e: RelatedExcerpt| code_result_value(files.last().path@, e),
        )
    }
}

/// The beginning of a row as it is sent.
fn row_json(row: u32) -> (r: Json)
    ensures
        r@ == row_value(row),
{
    Fields::new().with("line", Json::Int(row as i128)).with("column", Json::Int(0)).object()
}

/// An excerpt as a search result.
fn code_result_json(path: &String, excerpt: &RelatedExcerpt) -> (r: Json)
    ensures
        r@ == code_result_value(path@, *excerpt),
{
    let range = Fields::new().with("startPosition", row_json(excerpt.row_range.start)).with(
        "endPosition",
        row_json(excerpt.row_range.end),
    ).object();
    let block = Fields::new().with("relativeWorkspacePath", Json::string(path.as_str())).with(
        "range",
        range,
    ).with("contents", Json::string(excerpt.text.as_str())).object();
    Fields::new().with("codeBlock", block).with("score", Json::Decimal { mantissa: 8, scale: 1 }).object()
}

/// The excerpts of the files as search results.
pub fn cursor_code_results(related_files: &[RelatedFile]) -> (r: Json)
    ensures
        r@ == JsonView::Array(code_results(related_files@)),
{
    let mut out: Vec<Json> = Vec::new();
    let mut i: usize = 0;
    assert(related_files@.take(0) == Seq::<RelatedFile>::empty());
    while i < related_files.len()
        invariant
            i <= related_files@.len(),
            json_views(out@) == code_results(related_files@.take(i as int)),
        decreases related_files@.len() - i,
    {
        let file = &related_files[i];
        let ghost done = json_views(out@);
        let ghost value = |e: RelatedExcerpt| code_result_value(file.path@, e);
        let mut k: usize = 0;
        assert(file.excerpts@.take(0).map_values(value) == Seq::<JsonView>::empty());
        while k < file.excerpts.len()
            invariant
                k <= file.excerpts@.len(),
                value == (|e: RelatedExcerpt| code_result_value(file.path@, e)),
                json_views(out@) == done + file.excerpts@.take(k as int).map_values(value),
            decreases file.excerpts@.len() - k,
        {
            let ghost before = out@;
            out.push(code_result_json(&file.path, &file.excerpts[k]));
            assert(json_views(out@) =~= json_views(before).push(value(file.excerpts@[k as int])));
            assert(file.excerpts@.take(k + 1).map_values(value) =~= file.excerpts@.take(
                k as int,
            ).map_values(value).push(value(file.excerpts@[k as int])));
            k += 1;
        }
        proof {
            assert(file.excerpts@.take(k as int) == file.excerpts@);
            assert(related_files@.take(i + 1).drop_last() == related_files@.take(i as int));
        }
        i += 1;
    }
    assert(related_files@.take(i as int) == related_files@);
    Json::array(out)
}

// ---------------------------------------------------------------------------
// Open buffers
// ---------------------------------------------------------------------------
/// How many open buffers are looked at.
pub const MAX_OPEN_BUFFERS: usize = 8;

/// How many lines of an open buffer are sent.
pub const MAX_OPEN_BUFFER_LINES: usize = 200;

/// A file that a buffer shows: its path in the project and, for a local file, on disk.
#[derive(Debug, PartialEq, Eq)]
pub struct OpenFile {
    pub path: String,
    pub absolute_path: Option<String>,
}

/// An open buffer.
#[derive(Debug, PartialEq, Eq)]
pub struct OpenBuffer {
    pub file: Option<OpenFile>,
    pub text: String,
}

/// The path of an open file as it is sent.
pub open spec fn open_file_path(file: OpenFile, workspace_root: Option<Seq<char>>) -> Seq<char> {
    relative_path(file.path@, optional_text(file.absolute_path), workspace_root)
}

/// The first lines of an open buffer as a range.
pub open spec fn head_range(text: Seq<char>) -> RangeView {
    let head = first_lines(text, MAX_OPEN_BUFFER_LINES as nat);
    (head, 1, text_lines(head).len() as int)
}

/// The files to send and the paths seen after one more open buffer: its file is added unless
/// its path has been seen or its first lines are blank.
pub open spec fn with_open_buffer(
    state: (Seq<FileView>, Seq<Seq<char>>),
    buffer: OpenBuffer,
    workspace_root: Option<Seq<char>>,
) -> (Seq<FileView>, Seq<Seq<char>>) {
    match buffer.file {
        None => state,
        Some(file) => {
            let path = open_file_path(file, workspace_root);
            let range = head_range(buffer.text@);
            if state.1.contains(path) {
                state
            } else if trimmed(range.0).len() == 0 {
                (state.0, state.1.push(path))
            } else {
                (state.0.push((path, Seq::empty().push(range))), state.1.push(path))
            }
        },
    }
}

/// The files to send and the paths seen after the open buffers.
pub open spec fn with_open_buffers(
    state: (Seq<FileView>, Seq<Seq<char>>),
    buffers: Seq<OpenBuffer>,
    workspace_root: Option<Seq<char>>,
) -> (Seq<FileView>, Seq<Seq<char>>)
    decreases buffers.len(),
{
    if buffers.len() == 0 {
        state
    } else {
        with_open_buffer(
            with_open_buffers(state, buffers.drop_last(), workspace_root),
            buffers.last(),
            workspace_root,
        )
    }
}

/// The paths of the files.
pub open spec fn file_paths(files: Seq<FileView>) -> Seq<Seq<char>> {
    Seq::new(files.len(), |i: int| files[i].0)
}

/// The open buffers that are looked at.
pub open spec fn first_buffers(buffers: Seq<OpenBuffer>) -> Seq<OpenBuffer> {
    if buffers.len() <= MAX_OPEN_BUFFERS {
        buffers
    } else {
        buffers.take(MAX_OPEN_BUFFERS as int)
    }
}

/// The files to send: those given, and behind them the open ones that are neither among them
/// nor the current file.
pub open spec fn files_with_open_buffers(
    files: Seq<FileView>,
    buffers: Seq<OpenBuffer>,
    current: Seq<char>,
    workspace_root: Option<Seq<char>>,
) -> Seq<FileView> {
    with_open_buffers((files, file_paths(files).push(current)), first_buffers(buffers), workspace_root).0
}

/// Adds the open files that are neither among the given ones nor the current file.
pub fn append_open_buffer_additional_files(
    additional_files: &mut Vec<AdditionalFile>,
    open_buffers: &[OpenBuffer],
    current_relative_path: &str,
    workspace_root: Option<&str>,
)
    ensures
        file_views(final(additional_files)@) == files_with_open_buffers(
            file_views(old(additional_files)@),
            open_buffers@,
            current_relative_path@,
            optional_str(workspace_root),
        ),
{
    let ghost start = file_views(additional_files@);
    let mut seen: Vec<String> = Vec::new();
    let mut i: usize = 0;
    while i < additional_files.len()
        invariant
            i <= additional_files@.len(),
            seen@.len() == i,
            forall|k: int| 0 <= k < i ==> #[trigger] seen@[k]@ == additional_files@[k].path@,
        decreases additional_files@.len() - i,
    {
        seen.push(additional_files[i].path.clone());
        i += 1;
    }
    seen.push(current_relative_path.to_owned());
    let ghost begin = (start, file_paths(start).push(current_relative_path@));
    let ghost root = optional_str(workspace_root);
    assert(string_views(seen@) =~= begin.1);
    let count: usize = if open_buffers.len() <= MAX_OPEN_BUFFERS {
        open_buffers.len()
    } else {
        MAX_OPEN_BUFFERS
    };
    let mut k: usize = 0;
    assert(open_buffers@.take(0) == Seq::<OpenBuffer>::empty());
    while k < count
        invariant
            k <= count <= open_buffers@.len(),
            root == optional_str(workspace_root),
            (file_views(additional_files@), string_views(seen@)) == with_open_buffers(
                begin,
                open_buffers@.take(k as int),
                root,
            ),
        decreases count - k,
    {
        let buffer = &open_buffers[k];
        let ghost files_before = additional_files@;
        let ghost seen_before = seen@;
        assert(open_buffers@.take(k + 1).drop_last() == open_buffers@.take(k as int));
        if let Some(file) = &buffer.file {
            let absolute: Option<&str> = match &file.absolute_path {
                Some(path) => Some(path.as_str()),
                None => None,
            };
            let path = relative_cursor_path(file.path.as_str(), absolute, workspace_root);
            if !any_is(&seen, &path) {
                seen.push(path.clone());
                assert(string_views(seen@) =~= string_views(seen_before).push(path@));
                let (head, lines) = head_of(buffer.text.as_str(), MAX_OPEN_BUFFER_LINES);
                if !is_blank(head.as_str()) {
                    let mut ranges: Vec<VisibleRange> = Vec::new();
                    ranges.push(
                        VisibleRange { text: head, start_line: 1, end_line: lines as i32 },
                    );
                    assert(range_views(ranges@) =~= Seq::empty().push(head_range(buffer.text@)));
                    additional_files.push(AdditionalFile { path, ranges });
                    assert(file_views(additional_files@) =~= file_views(files_before).push(
                        (path@, Seq::empty().push(head_range(buffer.text@))),
                    ));
                }
            }
        }
        k += 1;
    }
    assert(open_buffers@.take(k as int) == first_buffers(open_buffers@));
}

/// What the open buffers leave as it is, and what they can add.
proof fn lemma_open_buffers(
    state: (Seq<FileView>, Seq<Seq<char>>),
    buffers: Seq<OpenBuffer>,
    workspace_root: Option<Seq<char>>,
)
    requires
        forall|i: int| 0 <= i < state.0.len() ==> state.1.contains((#[trigger] state.0[i]).0),
    ensures
        ({
            let after = with_open_buffers(state, buffers, workspace_root);
            let given = state.0.len() as int;
            &&& given <= after.0.len() <= given + buffers.len()
            &&& after.0.take(given) == state.0
            &&& forall|x: Seq<char>| state.1.contains(x) ==> after.1.contains(x)
            &&& forall|i: int| 0 <= i < after.0.len() ==> after.1.contains((#[trigger] after.0[i]).0)
            &&& forall|j: int|
                given <= j < after.0.len() ==> !state.1.contains((#[trigger] after.0[j]).0)
            &&& forall|i: int, j: int|
                0 <= i < j < after.0.len() && given <= j ==> (#[trigger] after.0[i]).0 != (
                #[trigger] after.0[j]).0
        }),
    decreases buffers.len(),
{
    let given = state.0.len() as int;
    if buffers.len() == 0 {
        assert(state.0.take(given) == state.0);
    } else {
        let before = with_open_buffers(state, buffers.drop_last(), workspace_root);
        let after = with_open_buffers(state, buffers, workspace_root);
        lemma_open_buffers(state, buffers.drop_last(), workspace_root);
        if let Some(file) = buffers.last().file {
            let path = open_file_path(file, workspace_root);
            if !before.1.contains(path) {
                assert(after.1 == before.1.push(path));
                assert(after.1.last() == path);
                assert forall|x: Seq<char>| before.1.contains(x) implies after.1.contains(x) by {
                    let i = choose|i: int| 0 <= i < before.1.len() && before.1[i] == x;
                    assert(after.1[i] == x);
                }
                assert(after.0.take(given) == before.0.take(given));
                assert forall|i: int| 0 <= i < after.0.len() implies after.1.contains(
                    (#[trigger] after.0[i]).0,
                ) by {
                    if i < before.0.len() {
                        assert(after.0[i] == before.0[i]);
                    }
                }
                assert forall|j: int| given <= j < after.0.len() implies !state.1.contains(
                    (#[trigger] after.0[j]).0,
                ) by {
                    if j < before.0.len() {
                        assert(after.0[j] == before.0[j]);
                    }
                }
                assert forall|i: int, j: int| 0 <= i < j < after.0.len() && given <= j implies (
                #[trigger] after.0[i]).0 != (#[trigger] after.0[j]).0 by {
                    assert(after.0[i] == before.0[i]);
                    if j < before.0.len() {
                        assert(after.0[j] == before.0[j]);
                    } else {
                        assert(before.1.contains(before.0[i].0));
                    }
                }
            }
        }
    }
}

/// The given files stay as they are, at most [`MAX_OPEN_BUFFERS`] are added behind them, and no
/// added file is the current one, one of the given or one of the other added ones.
pub proof fn law_open_buffers_add_other_files(
    files: Seq<FileView>,
    buffers: Seq<OpenBuffer>,
    current: Seq<char>,
    workspace_root: Option<Seq<char>>,
)
    ensures
        ({
            let all = files_with_open_buffers(files, buffers, current, workspace_root);
            let given = files.len() as int;
            &&& given <= all.len() <= given + MAX_OPEN_BUFFERS
            &&& all.take(given) == files
            &&& forall|j: int| given <= j < all.len() ==> (#[trigger] all[j]).0 != current
            &&& forall|i: int, j: int|
                0 <= i < j < all.len() && given <= j ==> (#[trigger] all[i]).0 != (#[trigger] all[j]).0
        }),
{
    let seen = file_paths(files).push(current);
    assert forall|i: int| 0 <= i < files.len() implies seen.contains((#[trigger] files[i]).0) by {
        assert(seen[i] == files[i].0);
    }
    assert(seen[files.len() as int] == current);
    lemma_open_buffers((files, seen), first_buffers(buffers), workspace_root);
}

/// A path that has been seen was seen before the open buffers, or is that of one of them.
proof fn lemma_seen_paths(
    state: (Seq<FileView>, Seq<Seq<char>>),
    buffers: Seq<OpenBuffer>,
    workspace_root: Option<Seq<char>>,
    path: Seq<char>,
)
    requires
        with_open_buffers(state, buffers, workspace_root).1.contains(path),
        !state.1.contains(path),
    ensures
        exists|j: int|
            0 <= j < buffers.len() && (#[trigger] buffers[j]).file is Some && open_file_path(
                buffers[j].file->0,
                workspace_root,
            ) == path,
    decreases buffers.len(),
{
    if buffers.len() > 0 {
        let shorter = buffers.drop_last();
        let before = with_open_buffers(state, shorter, workspace_root);
        if before.1.contains(path) {
            lemma_seen_paths(state, shorter, workspace_root, path);
            let j = choose|j: int|
                0 <= j < shorter.len() && (#[trigger] shorter[j]).file is Some && open_file_path(
                    shorter[j].file->0,
                    workspace_root,
                ) == path;
            assert(buffers[j] == shorter[j]);
        } else {
            assert(buffers[buffers.len() - 1] == buffers.last());
        }
    }
}

/// What has been added stays.
proof fn lemma_added_file_stays(
    state: (Seq<FileView>, Seq<Seq<char>>),
    buffers: Seq<OpenBuffer>,
    workspace_root: Option<Seq<char>>,
    k: int,
    file: FileView,
)
    requires
        0 <= k <= buffers.len(),
        with_open_buffers(state, buffers.take(k), workspace_root).0.contains(file),
    ensures
        with_open_buffers(state, buffers, workspace_root).0.contains(file),
    decreases buffers.len(),
{
    if k < buffers.len() {
        let shorter = buffers.drop_last();
        assert(shorter.take(k) == buffers.take(k));
        lemma_added_file_stays(state, shorter, workspace_root, k, file);
        let before = with_open_buffers(state, shorter, workspace_root).0;
        let i = choose|i: int| 0 <= i < before.len() && before[i] == file;
        assert(with_open_buffers(state, buffers, workspace_root).0[i] == file);
    } else {
        assert(buffers.take(k) == buffers);
    }
}

/// An open file that is looked at is sent with its first lines, unless these are blank, it is
/// the current file or one of the given, or another buffer shows it too and came first.
pub proof fn law_open_file_is_sent(
    files: Seq<FileView>,
    buffers: Seq<OpenBuffer>,
    current: Seq<char>,
    workspace_root: Option<Seq<char>>,
    i: int,
)
    requires
        0 <= i < first_buffers(buffers).len(),
        buffers[i].file is Some,
        ({
            let path = open_file_path(buffers[i].file->0, workspace_root);
            &&& path != current
            &&& !file_paths(files).contains(path)
            &&& trimmed(head_range(buffers[i].text@).0).len() > 0
            &&& forall|j: int|
                0 <= j < i && (#[trigger] buffers[j]).file is Some ==> open_file_path(
                    buffers[j].file->0,
                    workspace_root,
                ) != path
        }),
    ensures
        files_with_open_buffers(files, buffers, current, workspace_root).contains(
            (
                open_file_path(buffers[i].file->0, workspace_root),
                Seq::empty().push(head_range(buffers[i].text@)),
            ),
        ),
{
    let seen = file_paths(files).push(current);
    let state = (files, seen);
    let looked_at = first_buffers(buffers);
    let path = open_file_path(buffers[i].file->0, workspace_root);
    let file: FileView = (path, Seq::empty().push(head_range(buffers[i].text@)));
    let before = with_open_buffers(state, looked_at.take(i), workspace_root);
    assert(looked_at.take(i + 1).drop_last() == looked_at.take(i));
    if seen.contains(path) {
        let k = choose|k: int| 0 <= k < seen.len() && seen[k] == path;
        assert(file_paths(files)[k] == path);
    }
    if before.1.contains(path) {
        lemma_seen_paths(state, looked_at.take(i), workspace_root, path);
        let j = choose|j: int|
            0 <= j < i && (#[trigger] looked_at.take(i)[j]).file is Some && open_file_path(
                looked_at.take(i)[j].file->0,
                workspace_root,
            ) == path;
        assert(buffers[j] == looked_at.take(i)[j]);
    }
    let after = with_open_buffers(state, looked_at.take(i + 1), workspace_root);
    assert(after.0[before.0.len() as int] == file);
    lemma_added_file_stays(state, looked_at, workspace_root, i + 1, file);
}

// ---------------------------------------------------------------------------
// What the notions of this module come to, item by item
// ---------------------------------------------------------------------------
/// Of the changes the last twenty are sent, or all where there are no more, in their order.
pub proof fn law_recent_changes(events: Seq<BufferChange>)
    ensures
        events.len() <= 20 ==> recent(events).len() == events.len(),
        events.len() > 20 ==> recent(events).len() == 20,
        forall|i: int|
            0 <= i < recent(events).len() ==> #[trigger] recent(events)[i] == events[events.len()
                - recent(events).len() + i],
{
}

/// Each change goes to its own file, whole and behind the earlier ones, and to no other.
pub proof fn law_changes_of_a_file(events: Seq<BufferChange>, event: BufferChange, path: Seq<char>)
    ensures
        diffs_of(Seq::empty(), path) == Seq::<Seq<char>>::empty(),
        event.path@ == path ==> diffs_of(events.push(event), path) == diffs_of(events, path).push(
            event.diff@,
        ),
        event.path@ != path ==> diffs_of(events.push(event), path) == diffs_of(events, path),
        change_paths(events).len() == events.len(),
        forall|i: int| 0 <= i < events.len() ==> #[trigger] change_paths(events)[i] == events[i].path@,
{
    assert(events.push(event).drop_last() == events);
}

/// The files stand in the order of their first changes, each with the differences of its own
/// changes.
pub proof fn law_histories_in_order(events: Seq<BufferChange>)
    ensures
        grouped(events).len() == distinct(change_paths(events)).len(),
        forall|i: int|
            0 <= i < grouped(events).len() ==> (#[trigger] grouped(events)[i]).0 == distinct(
                change_paths(events),
            )[i] && grouped(events)[i].1 == diffs_of(events, grouped(events)[i].0),
{
}

/// The differences of a path are those of the first history under just that path, and none where
/// there is no such history.
pub proof fn law_history_is_found(
    histories: Seq<(Seq<char>, Seq<Seq<char>>)>,
    path: Seq<char>,
    i: int,
)
    ensures
        0 <= i < histories.len() && histories[i].0 == path && (forall|j: int|
            0 <= j < i ==> (#[trigger] histories[j]).0 != path) ==> history_of(histories, path)
            == histories[i].1,
        (forall|j: int| 0 <= j < histories.len() ==> (#[trigger] histories[j]).0 != path)
            ==> history_of(histories, path) == Seq::<Seq<char>>::empty(),
    decreases histories.len(),
{
    if histories.len() > 0 {
        let rest = histories.drop_first();
        law_history_is_found(rest, path, i - 1);
        assert(histories[0] == histories.first());
        assert forall|j: int| 0 <= j < rest.len() implies #[trigger] rest[j] == histories[j + 1] by {}
        if histories.first().0 != path {
            if 0 <= i < histories.len() && histories[i].0 == path && (forall|j: int|
                0 <= j < i ==> (#[trigger] histories[j]).0 != path) {
                assert(rest[i - 1] == histories[i]);
                assert forall|j: int| 0 <= j < i - 1 implies (#[trigger] rest[j]).0 != path by {
                    assert(histories[j + 1].0 != path);
                }
            }
            if forall|j: int| 0 <= j < histories.len() ==> (#[trigger] histories[j]).0 != path {
                assert forall|j: int| 0 <= j < rest.len() implies (#[trigger] rest[j]).0 != path by {
                    assert(histories[j + 1].0 != path);
                }
            }
        } else {
            assert(histories[0].0 == path);
        }
    } else {
        assert(history_of(histories, path) =~= Seq::<Seq<char>>::empty());
    }
}

/// A history holds the name of its file and its differences, one by one.
pub proof fn law_history_views(histories: Seq<FileDiffHistory>)
    ensures
        history_views(histories).len() == histories.len(),
        forall|i: int|
            0 <= i < histories.len() ==> (#[trigger] history_views(histories)[i]).0
                == histories[i].file_name@ && history_views(histories)[i].1 == string_views(
                histories[i].diff_history@,
            ),
{
}

/// Every history is sent, in its place, with the name of its file, each of its differences whole,
/// and a zero for each.
pub proof fn law_histories_are_sent(
    histories: Seq<(Seq<char>, Seq<Seq<char>>)>,
    i: int,
    k: int,
)
    requires
        0 <= i < histories.len(),
        0 <= k < histories[i].1.len(),
    ensures
        histories_value(histories) matches JsonView::Array(items) && items.len() == histories.len()
            && ({
            let diffs = field(items[i], "diffHistory"@);
            let stamps = field(items[i], "diffHistoryTimestamps"@);
            &&& items[i] matches JsonView::Object(fields) && fields.len() == 3
            &&& field(items[i], "fileName"@) == Some(JsonView::Str(histories[i].0))
            &&& diffs == Some(strings_value(histories[i].1))
            &&& stamps matches Some(JsonView::Array(zeros)) && zeros.len() == histories[i].1.len()
                && zeros[k] == JsonView::Int(0)
        }),
        strings_value(histories[i].1) matches JsonView::Array(texts) && texts.len()
            == histories[i].1.len() && texts[k] == JsonView::Str(histories[i].1[k]),
{
    broadcast use lemma_lookup_push;
    reveal_strlit("fileName");
    reveal_strlit("diffHistory");
    reveal_strlit("diffHistoryTimestamps");
    assert("fileName"@.len() == 8);
    assert("diffHistory"@.len() == 11);
    assert("diffHistoryTimestamps"@.len() == 21);
    assert(histories_value(histories)->Array_0[i] == history_value(histories[i]));
}

/// A row is sent as the signed number of 32 bits that differs from it by a multiple of 2^32.
pub proof fn law_signed_row(row: u32)
    ensures
        -0x8000_0000 <= signed_row(row) <= 0x7fff_ffff,
        (row - signed_row(row)) % 0x1_0000_0000 == 0,
        row <= 0x7fff_ffff ==> signed_row(row) == row,
{
}

/// Every related file is sent with its path and with each of its excerpts in its place: the text
/// whole, from its first line, counted from one, to its last.
pub proof fn law_excerpts_are_kept(related: Seq<RelatedFile>, files: Seq<AdditionalFile>)
    requires
        file_views(files) =~= related.map_values(|f: RelatedFile| related_file_view(f)),
    ensures
        files.len() == related.len(),
        forall|i: int|
            0 <= i < files.len() ==> (#[trigger] files[i]).path@ == related[i].path@
                && files[i].ranges@.len() == related[i].excerpts@.len(),
        forall|i: int, k: int|
            0 <= i < files.len() && 0 <= k < files[i].ranges@.len() ==> (
            #[trigger] files[i].ranges@[k]).text@ == related[i].excerpts@[k].text@
                && files[i].ranges@[k].start_line == signed_row(
                related[i].excerpts@[k].row_range.start,
            ) + 1 && files[i].ranges@[k].end_line == signed_row(
                related[i].excerpts@[k].row_range.end,
            ),
{
    assert(file_views(files).len() == related.len());
    assert forall|i: int| 0 <= i < files.len() implies (#[trigger] files[i]).path@ == related[i].path@
        && files[i].ranges@.len() == related[i].excerpts@.len() by {
        assert(file_views(files)[i] == related_file_view(related[i]));
        assert(range_views(files[i].ranges@).len() == files[i].ranges@.len());
    }
    assert forall|i: int, k: int|
        0 <= i < files.len() && 0 <= k < files[i].ranges@.len() implies (
    #[trigger] files[i].ranges@[k]).text@ == related[i].excerpts@[k].text@
        && files[i].ranges@[k].start_line == signed_row(related[i].excerpts@[k].row_range.start) + 1
        && files[i].ranges@[k].end_line == signed_row(related[i].excerpts@[k].row_range.end) by {
        assert(file_views(files)[i] == related_file_view(related[i]));
        assert(range_views(files[i].ranges@)[k] == files[i].ranges@[k]@);
        assert(related_file_view(related[i]).1[k] == excerpt_range(related[i].excerpts@[k]));
    }
}

/// A file that is sent is viewed as its path and its ranges, each as its text, first and last line.
pub proof fn law_file_views(files: Seq<AdditionalFile>, i: int, k: int)
    requires
        0 <= i < files.len(),
        0 <= k < files[i].ranges@.len(),
    ensures
        file_views(files).len() == files.len(),
        file_views(files)[i].0 == files[i].path@,
        file_views(files)[i].1.len() == files[i].ranges@.len(),
        file_views(files)[i].1[k].0 == files[i].ranges@[k].text@,
        file_views(files)[i].1[k].1 == files[i].ranges@[k].start_line,
        file_views(files)[i].1[k].2 == files[i].ranges@[k].end_line,
{
}

/// Every file is sent, in its place, with its path and with each of its ranges in its place: the
/// text whole, and its first and last line.
pub proof fn law_files_are_sent(files: Seq<FileView>, i: int, k: int)
    requires
        0 <= i < files.len(),
    ensures
        additional_files_value(files) matches JsonView::Array(items) && items.len() == files.len()
            && ({
            let ranges = files[i].1;
            &&& items[i] matches JsonView::Object(fields) && fields.len() == 5
            &&& field(items[i], "relativeWorkspacePath"@) == Some(JsonView::Str(files[i].0))
            &&& field(items[i], "isOpen"@) == Some(JsonView::Bool(true))
            &&& field(items[i], "visibleRangeContent"@) matches Some(JsonView::Array(texts))
                && texts.len() == ranges.len() && (0 <= k < ranges.len() ==> texts[k]
                == JsonView::Str(ranges[k].0))
            &&& field(items[i], "startLineNumberOneIndexed"@) matches Some(JsonView::Array(starts))
                && starts.len() == ranges.len() && (0 <= k < ranges.len() ==> starts[k]
                == JsonView::Int(ranges[k].1))
            &&& field(items[i], "visibleRanges"@) matches Some(JsonView::Array(lines))
                && lines.len() == ranges.len() && (0 <= k < ranges.len() ==> {
                &&& lines[k] matches JsonView::Object(fields) && fields.len() == 2
                &&& field(lines[k], "startLineNumber"@) == Some(JsonView::Int(ranges[k].1))
                &&& field(lines[k], "endLineNumberInclusive"@) == Some(JsonView::Int(ranges[k].2))
            })
        }),
{
    broadcast use lemma_lookup_push;
    reveal_strlit("relativeWorkspacePath");
    reveal_strlit("isOpen");
    reveal_strlit("visibleRangeContent");
    reveal_strlit("startLineNumberOneIndexed");
    reveal_strlit("visibleRanges");
    assert("relativeWorkspacePath"@.len() == 21);
    assert("isOpen"@.len() == 6);
    assert("visibleRangeContent"@.len() == 19);
    assert("startLineNumberOneIndexed"@.len() == 25);
    assert("visibleRanges"@.len() == 13);
    reveal_strlit("startLineNumber");
    reveal_strlit("endLineNumberInclusive");
    assert("startLineNumber"@.len() == 15);
    assert("endLineNumberInclusive"@.len() == 22);
    let item = additional_file_value(files[i]);
    assert(additional_files_value(files)->Array_0[i] == item);
    assert(field(item, "visibleRanges"@) == Some(
        JsonView::Array(files[i].1.map_values(|r: RangeView| lines_value(r))),
    ));
    assert(field(item, "visibleRangeContent"@) == Some(
        JsonView::Array(files[i].1.map_values(|r: RangeView| JsonView::Str(r.0))),
    ));
    assert(field(item, "startLineNumberOneIndexed"@) == Some(
        JsonView::Array(files[i].1.map_values(|r: RangeView| JsonView::Int(r.1))),
    ));
    if 0 <= k < files[i].1.len() {
        let range = lines_value(files[i].1[k]);
        assert(field(range, "startLineNumber"@) == Some(JsonView::Int(files[i].1[k].1)));
        assert(field(range, "endLineNumberInclusive"@) == Some(JsonView::Int(files[i].1[k].2)));
    }
}

/// The excerpts of the files are sent as results one after the other: those of one more file behind
/// those of the others, in their order, each with the path of its file, its first row, the row
/// behind it, its whole text and the score.
pub proof fn law_results_are_sent(files: Seq<RelatedFile>, file: RelatedFile, k: int)
    ensures
        code_results(Seq::empty()) == Seq::<JsonView>::empty(),
        code_results(files.push(file)).len() == code_results(files).len() + file.excerpts@.len(),
        code_results(files.push(file)).take(code_results(files).len() as int) == code_results(files),
        0 <= k < file.excerpts@.len() ==> {
            let excerpt = file.excerpts@[k];
            let result = code_results(files.push(file))[code_results(files).len() + k];
            &&& result matches JsonView::Object(fields) && fields.len() == 2
            &&& field(result, "score"@) == Some(JsonView::Decimal { mantissa: 8, scale: 1 })
            &&& field(result, "codeBlock"@) matches Some(block) && ({
                &&& block matches JsonView::Object(fields) && fields.len() == 3
                &&& field(block, "relativeWorkspacePath"@) == Some(JsonView::Str(file.path@))
                &&& field(block, "contents"@) == Some(JsonView::Str(excerpt.text@))
                &&& field(block, "range"@) matches Some(range) && ({
                    &&& range matches JsonView::Object(fields) && fields.len() == 2
                    &&& field(range, "startPosition"@) matches Some(start) && starts_row(
                        start,
                        excerpt.row_range.start,
                    )
                    &&& field(range, "endPosition"@) matches Some(end) && starts_row(
                        end,
                        excerpt.row_range.end,
                    )
                })
            })
        },
{
    broadcast use lemma_lookup_push;
    reveal_strlit("codeBlock");
    reveal_strlit("score");
    reveal_strlit("relativeWorkspacePath");
    reveal_strlit("range");
    reveal_strlit("contents");
    reveal_strlit("startPosition");
    reveal_strlit("endPosition");
    reveal_strlit("line");
    reveal_strlit("column");
    assert("codeBlock"@.len() == 9);
    assert("score"@.len() == 5);
    assert("relativeWorkspacePath"@.len() == 21);
    assert("range"@.len() == 5);
    assert("contents"@.len() == 8);
    assert("startPosition"@.len() == 13);
    assert("endPosition"@.len() == 11);
    assert("line"@.len() == 4);
    assert("column"@.len() == 6);
    assert("score"@[0] != "range"@[0]);
    let more = files.push(file);
    assert(more.drop_last() == files);
    let added = file.excerpts@.map_values(|e: RelatedExcerpt| code_result_value(file.path@, e));
    assert(code_results(more) == code_results(files) + added);
    assert(code_results(more).take(code_results(files).len() as int) =~= code_results(files));
    if 0 <= k < file.excerpts@.len() {
        let excerpt = file.excerpts@[k];
        let result = code_result_value(file.path@, excerpt);
        assert(code_results(more)[code_results(files).len() + k] == result);
        let block = field(result, "codeBlock"@)->0;
        let range = field(block, "range"@)->0;
        assert(field(block, "contents"@) == Some(JsonView::Str(excerpt.text@)));
        assert(field(range, "startPosition"@) == Some(row_value(excerpt.row_range.start)));
        assert(field(range, "endPosition"@) == Some(row_value(excerpt.row_range.end)));
        assert(starts_row(row_value(excerpt.row_range.start), excerpt.row_range.start));
        assert(starts_row(row_value(excerpt.row_range.end), excerpt.row_range.end));
    }
}

/// The value names the beginning of the row.
pub open spec fn starts_row(value: JsonView, row: u32) -> bool {
    &&& value matches JsonView::Object(fields) && fields.len() == 2
    &&& field(value, "line"@) == Some(JsonView::Int(row as int))
    &&& field(value, "column"@) == Some(JsonView::Int(0))
}

/// Of an open buffer the first two hundred lines are sent, or all where there are no more, as lines
/// one and up.
pub proof fn law_head_range(text: Seq<char>)
    ensures
        head_range(text).0 == first_lines(text, 200),
        head_range(text).1 == 1,
        head_range(text).2 == text_lines(first_lines(text, 200)).len(),
{
}

/// What one more open buffer does: without a file nothing; with one whose path has been seen
/// nothing; else the path has been seen from then on, and the file is added behind the others, with
/// its first lines alone, unless these are white space.
pub proof fn law_open_buffer_is_looked_at(
    state: (Seq<FileView>, Seq<Seq<char>>),
    buffers: Seq<OpenBuffer>,
    buffer: OpenBuffer,
    workspace_root: Option<Seq<char>>,
)
    ensures
        ({
            let before = with_open_buffers(state, buffers, workspace_root);
            let after = with_open_buffers(state, buffers.push(buffer), workspace_root);
            match buffer.file {
                None => after == before,
                Some(file) => {
                    let path = relative_path(
                        file.path@,
                        optional_text(file.absolute_path),
                        workspace_root,
                    );
                    let head = first_lines(buffer.text@, 200);
                    &&& before.1.contains(path) ==> after == before
                    &&& !before.1.contains(path) ==> after.1 == before.1.push(path)
                    &&& !before.1.contains(path) && trimmed(head).len() == 0 ==> after.0 == before.0
                    &&& !before.1.contains(path) && trimmed(head).len() > 0 ==> after.0.len()
                        == before.0.len() + 1 && after.0.drop_last() == before.0 && after.0.last().0
                        == path && after.0.last().1.len() == 1 && after.0.last().1[0] == (
                        head,
                        1int,
                        text_lines(head).len() as int,
                    )
                },
            }
        }),
        with_open_buffers(state, Seq::empty(), workspace_root) == state,
{
    assert(buffers.push(buffer).drop_last() == buffers);
    let before = with_open_buffers(state, buffers, workspace_root);
    let after = with_open_buffers(state, buffers.push(buffer), workspace_root);
    if after.0.len() > before.0.len() {
        assert(after.0.drop_last() =~= before.0);
    }
}

/// The first eight open buffers are looked at, or all where there are no more; the current file and
/// the files that are sent anyway count as seen.
pub proof fn law_first_buffers_are_looked_at(
    files: Seq<FileView>,
    buffers: Seq<OpenBuffer>,
    current: Seq<char>,
    workspace_root: Option<Seq<char>>,
)
    ensures
        buffers.len() <= 8 ==> first_buffers(buffers) == buffers,
        buffers.len() > 8 ==> first_buffers(buffers) == buffers.take(8),
        files_with_open_buffers(files, buffers, current, workspace_root) == with_open_buffers(
            (files, Seq::new(files.len(), |i: int| files[i].0).push(current)),
            first_buffers(buffers),
            workspace_root,
        ).0,
{
    assert(file_paths(files) =~= Seq::new(files.len(), |i: int| files[i].0));
}

/// The first line of an excerpt, counted from one, is a signed number of 32 bits unless its row is
/// the greatest such number; of files all excerpts count.
pub proof fn law_which_excerpts_fit(excerpt: RelatedExcerpt, files: Seq<RelatedFile>)
    ensures
        excerpt_fits(excerpt) <==> excerpt.row_range.start != 0x7fff_ffff,
        related_files_fit(files) <==> forall|i: int, k: int|
            0 <= i < files.len() && 0 <= k < files[i].excerpts@.len() ==> (
            #[trigger] files[i].excerpts@[k]).row_range.start != 0x7fff_ffff,
{
    if related_files_fit(files) {
        assert forall|i: int, k: int|
            0 <= i < files.len() && 0 <= k < files[i].excerpts@.len() implies (
        #[trigger] files[i].excerpts@[k]).row_range.start != 0x7fff_ffff by {
            assert(excerpt_fits(files[i].excerpts@[k]));
        }
    }
}

} // verus!
