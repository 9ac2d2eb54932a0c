//! The diagnostics of the active buffer, as they are sent.
use crate::json::{Fields, Json};
#[allow(unused_imports)]
use crate::json::{field, json_views, lemma_lookup_push, no_fields, JsonView};
use crate::point::Point;
use crate::text::{chars_of, width_of};
#[allow(unused_imports)]
use crate::text::{byte_len, char_width, lemma_byte_len_push, lemma_text_lines_nonempty, text_lines};
use std::ops::Range;
use vstd::prelude::*;

verus! {

/// A diagnostic near the cursor: the rows that its snippet covers in the buffer, and the bytes
/// of the snippet that it marks.
#[derive(Debug, PartialEq, Eq)]
pub struct ActiveBufferDiagnostic {
    pub severity: Option<i32>,
    pub message: String,
    pub snippet: String,
    pub snippet_buffer_row_range: Range<u32>,
    pub diagnostic_range_in_snippet: Range<usize>,
}

/// `s` without the characters that begin at byte `offset` or behind it.
pub open spec fn prefix_before(s: Seq<char>, offset: nat) -> Seq<char>
    decreases s.len(),
{
    if s.len() == 0 || byte_len(s.drop_last()) < offset {
        s
    } else {
        prefix_before(s.drop_last(), offset)
    }
}

/// The row that follows `s`: the number of its line feeds.
pub open spec fn row_after(s: Seq<char>) -> int {
    text_lines(s).len() - 1
}

/// The column that follows `s`, in characters: the length of its last line.
pub open spec fn column_after(s: Seq<char>) -> nat {
    text_lines(s).last().len()
}

/// Every row and column on the way to byte `offset` can be counted in 32 bits.
pub open spec fn position_fits(s: Seq<char>, offset: nat) -> bool {
    forall|k: int|
        0 <= k <= prefix_before(s, offset).len() ==> row_after(#[trigger] s.take(k)) <= u32::MAX
            && column_after(s.take(k)) <= u32::MAX
}

/// What was cut off begins at `offset` or behind it.
proof fn lemma_prefix_before(s: Seq<char>, offset: nat, k: int)
    requires
        0 <= k < s.len(),
        byte_len(s.take(k)) >= offset,
    ensures
        prefix_before(s, offset) == prefix_before(s.take(k), offset),
    decreases s.len(),
{
    let shorter = s.drop_last();
    crate::text::lemma_byte_len_take(shorter, k);
    assert(shorter.take(k) == s.take(k));
    if k < shorter.len() {
        lemma_prefix_before(shorter, offset, k);
    } else {
        assert(shorter == s.take(k));
    }
}

/// A prefix that ends in a character before `offset` is kept whole.
proof fn lemma_prefix_len(s: Seq<char>, offset: nat, k: int)
    requires
        0 < k <= s.len(),
        byte_len(s.take(k).drop_last()) < offset,
    ensures
        prefix_before(s, offset).len() >= k,
    decreases s.len(),
{
    if k < s.len() {
        assert(s.drop_last().take(k) == s.take(k));
        lemma_prefix_len(s.drop_last(), offset, k);
    } else {
        assert(s.take(k) == s);
    }
}

/// The row and the column, in characters, at byte `offset` of the text, where they can be counted
/// in 32 bits.
pub fn checked_position_in_text(text: &str, offset: usize) -> (r: Option<Point>)
    ensures
        match r {
            Some(point) => position_fits(text@, offset as nat) && point.row == row_after(
                prefix_before(text@, offset as nat),
            ) && point.column == column_after(prefix_before(text@, offset as nat)),
            None => !position_fits(text@, offset as nat),
        },
{
    let chars = chars_of(text);
    let mut row: u32 = 0;
    let mut column: u32 = 0;
    let mut k: usize = 0;
    let mut left: usize = offset;
    proof {
        assert(chars@.take(0) == Seq::<char>::empty());
    }
    while k < chars.len() && left > 0
        invariant
            chars@ == text@,
            k <= chars@.len(),
            forall|j: int|
                0 <= j <= k ==> row_after(#[trigger] chars@.take(j)) <= u32::MAX && column_after(
                    chars@.take(j),
                ) <= u32::MAX,
            row == row_after(chars@.take(k as int)),
            column == column_after(chars@.take(k as int)),
            left > 0 ==> left + byte_len(chars@.take(k as int)) == offset,
            left == 0 ==> byte_len(chars@.take(k as int)) >= offset,
            prefix_before(chars@.take(k as int), offset as nat) == chars@.take(k as int),
        decreases chars@.len() - k,
    {
        let c = chars[k];
        let width: usize = width_of(c);
        proof {
            let now = chars@.take(k as int);
            let next = chars@.take(k + 1);
            assert(next.drop_last() == now);
            assert(next == now.push(c));
            lemma_byte_len_push(now, c);
            lemma_text_lines_nonempty(now);
            assert(prefix_before(next, offset as nat) == next);
            lemma_prefix_len(text@, offset as nat, k + 1);
            assert(0 <= k + 1 <= prefix_before(text@, offset as nat).len());
        }
        if c == '\n' {
            if row == u32::MAX {
                assert(row_after(text@.take(k + 1)) > u32::MAX);
                return None;
            }
            row += 1;
            column = 0;
        } else {
            if column == u32::MAX {
                assert(column_after(text@.take(k + 1)) > u32::MAX);
                return None;
            }
            column += 1;
        }
        left = if width >= left {
            0
        } else {
            left - width
        };
        k += 1;
    }
    proof {
        if k < chars@.len() {
            lemma_prefix_before(chars@, offset as nat, k as int);
        } else {
            assert(chars@.take(k as int) == chars@);
        }
    }
    Some(Point::new(row, column))
}

/// The row and the column, in characters, at byte `offset` of the text.
pub fn position_in_text(text: &str, offset: usize) -> (r: Point)
    requires
        position_fits(text@, offset as nat),
    ensures
        r.row == row_after(prefix_before(text@, offset as nat)),
        r.column == column_after(prefix_before(text@, offset as nat)),
{
    checked_position_in_text(text, offset).unwrap()
}

/// The row and column at byte `offset`, if the text begins at `first_row`, are numbers of 32 bits.
pub open spec fn row_fits(s: Seq<char>, offset: nat, first_row: u32) -> bool {
    &&& position_fits(s, offset)
    &&& first_row + row_after(prefix_before(s, offset)) <= u32::MAX
}

/// The rows and columns that the diagnostic marks are numbers of 32 bits.
pub open spec fn diagnostic_fits(d: ActiveBufferDiagnostic) -> bool {
    &&& row_fits(
        d.snippet@,
        d.diagnostic_range_in_snippet.start as nat,
        d.snippet_buffer_row_range.start,
    )
    &&& row_fits(
        d.snippet@,
        d.diagnostic_range_in_snippet.end as nat,
        d.snippet_buffer_row_range.start,
    )
}

/// The rows and columns of all diagnostics are numbers of 32 bits.
pub open spec fn diagnostics_fit(diagnostics: Seq<ActiveBufferDiagnostic>) -> bool {
    forall|i: int| 0 <= i < diagnostics.len() ==> diagnostic_fits(#[trigger] diagnostics[i])
}

/// Whether the row and column at byte `offset`, if the text begins at `first_row`, are numbers of
/// 32 bits.
fn check_row(text: &str, offset: usize, first_row: u32) -> (r: bool)
    ensures
        r == row_fits(text@, offset as nat, first_row),
{
    match checked_position_in_text(text, offset) {
        Some(point) => point.row <= u32::MAX - first_row,
        None => false,
    }
}

/// Whether the rows and columns of all diagnostics are numbers of 32 bits.
pub fn check_diagnostics(diagnostics: &[ActiveBufferDiagnostic]) -> (r: bool)
    ensures
        r == diagnostics_fit(diagnostics@),
{
    let mut i: usize = 0;
    while i < diagnostics.len()
        invariant
            i <= diagnostics@.len(),
            forall|k: int| 0 <= k < i ==> diagnostic_fits(#[trigger] diagnostics@[k]),
        decreases diagnostics@.len() - i,
    {
        let d = &diagnostics[i];
        let range = &d.diagnostic_range_in_snippet;
        let first_row: u32 = d.snippet_buffer_row_range.start;
        if !check_row(d.snippet.as_str(), range.start, first_row) || !check_row(
            d.snippet.as_str(),
            range.end,
            first_row,
        ) {
            assert(!diagnostic_fits(diagnostics@[i as int]));
            return false;
        }
        i += 1;
    }
    true
}

/// The part of the buffer that the diagnostic marks, as it is sent.
pub open spec fn diagnostic_range_value(d: ActiveBufferDiagnostic) -> JsonView {
    let start = prefix_before(d.snippet@, d.diagnostic_range_in_snippet.start as nat);
    let end = prefix_before(d.snippet@, d.diagnostic_range_in_snippet.end as nat);
    let first_row = d.snippet_buffer_row_range.start;
    JsonView::Object(
        no_fields().push(("startLine"@, JsonView::Int(first_row + row_after(start)))).push(
            ("startColumn"@, JsonView::Int(column_after(start) as int)),
        ).push(("endLine"@, JsonView::Int(first_row + row_after(end)))).push(
            ("endColumn"@, JsonView::Int(column_after(end) as int)),
        ),
    )
}

/// The severity as it is sent: zero where there is none.
pub open spec fn severity_value(d: ActiveBufferDiagnostic) -> JsonView {
    match d.severity {
        Some(severity) => JsonView::Int(severity as int),
        None => JsonView::Int(0),
    }
}

/// The part of the buffer that the diagnostic marks, as it is sent.
pub fn cursor_diagnostic_range(diagnostic: &ActiveBufferDiagnostic) -> (r: Json)
    requires
        diagnostic_fits(*diagnostic),
    ensures
        r@ == diagnostic_range_value(*diagnostic),
{
    let start = position_in_text(
        diagnostic.snippet.as_str(),
        diagnostic.diagnostic_range_in_snippet.start,
    );
    let end = position_in_text(
        diagnostic.snippet.as_str(),
        diagnostic.diagnostic_range_in_snippet.end,
    );
    let start_line: u32 = diagnostic.snippet_buffer_row_range.start + start.row;
    let end_line: u32 = diagnostic.snippet_buffer_row_range.start + end.row;
    Fields::new().with("startLine", Json::Int(start_line as i128)).with(
        "startColumn",
        Json::Int(start.column as i128),
    ).with("endLine", Json::Int(end_line as i128)).with("endColumn", Json::Int(end.column as i128)).object()
}

/// The severity as it is sent.
fn severity_json(diagnostic: &ActiveBufferDiagnostic) -> (r: Json)
    ensures
        r@ == severity_value(*diagnostic),
{
    match diagnostic.severity {
        Some(severity) => Json::Int(severity as i128),
        None => Json::Int(0),
    }
}

/// A diagnostic as it is sent with the file.
pub open spec fn diagnostic_value(d: ActiveBufferDiagnostic) -> JsonView {
    JsonView::Object(
        no_fields().push(("message"@, JsonView::Str(d.message@))).push(
            ("range"@, diagnostic_range_value(d)),
        ).push(("severity"@, severity_value(d))).push(
            ("relatedInformation"@, JsonView::Array(Seq::empty())),
        ),
    )
}

/// The diagnostics as they are sent with the file.
pub open spec fn diagnostics_value(diagnostics: Seq<ActiveBufferDiagnostic>) -> JsonView {
    JsonView::Array(diagnostics.map_values(|d: ActiveBufferDiagnostic| diagnostic_value(d)))
}

/// The diagnostics as they are sent with the file.
pub fn cursor_diagnostics(diagnostics: &[ActiveBufferDiagnostic]) -> (r: Json)
    requires
        diagnostics_fit(diagnostics@),
    ensures
        r@ == diagnostics_value(diagnostics@),
{
    let mut out: Vec<Json> = Vec::new();
    let mut i: usize = 0;
    while i < diagnostics.len()
        invariant
            i <= diagnostics@.len(),
            diagnostics_fit(diagnostics@),
            out@.len() == i,
            forall|k: int| 0 <= k < i ==> #[trigger] out@[k]@ == diagnostic_value(diagnostics@[k]),
        decreases diagnostics@.len() - i,
    {
        let diagnostic = &diagnostics[i];
        assert(diagnostic_fits(diagnostics@[i as int]));
        out.push(
            Fields::new().with("message", Json::string(diagnostic.message.as_str())).with(
                "range",
                cursor_diagnostic_range(diagnostic),
            ).with("severity", severity_json(diagnostic)).with(
                "relatedInformation",
                Json::empty_array(),
            ).object(),
        );
        i += 1;
    }
    assert(json_views(out@) =~= diagnostics_value(diagnostics@)->Array_0);
    Json::array(out)
}

/// A diagnostic as it is sent with the linter errors.
pub open spec fn linter_error_value(d: ActiveBufferDiagnostic) -> JsonView {
    JsonView::Object(
        no_fields().push(("message"@, JsonView::Str(d.message@))).push(
            ("range"@, diagnostic_range_value(d)),
        ).push(("relatedInformation"@, JsonView::Array(Seq::empty()))).push(
            ("severity"@, severity_value(d)),
        ).push(("isStale"@, JsonView::Bool(false))),
    )
}

/// The linter errors of a file as they are sent.
pub open spec fn linter_errors_value(
    relative_path: Seq<char>,
    contents: Seq<char>,
    diagnostics: Seq<ActiveBufferDiagnostic>,
) -> JsonView {
    JsonView::Object(
        no_fields().push(("relativeWorkspacePath"@, JsonView::Str(relative_path))).push(
            (
                "errors"@,
                JsonView::Array(
                    diagnostics.map_values(|d: ActiveBufferDiagnostic| linter_error_value(d)),
                ),
            ),
        ).push(("fileContents"@, JsonView::Str(contents))),
    )
}

/// The linter errors of a file as they are sent.
pub fn cursor_linter_errors(
    relative_path: &str,
    contents: &str,
    diagnostics: &[ActiveBufferDiagnostic],
) -> (r: Json)
    requires
        diagnostics_fit(diagnostics@),
    ensures
        r@ == linter_errors_value(relative_path@, contents@, diagnostics@),
{
    let mut errors: Vec<Json> = Vec::new();
    let mut i: usize = 0;
    while i < diagnostics.len()
        invariant
            i <= diagnostics@.len(),
            diagnostics_fit(diagnostics@),
            errors@.len() == i,
            forall|k: int| 0 <= k < i ==> #[trigger] errors@[k]@ == linter_error_value(diagnostics@[k]),
        decreases diagnostics@.len() - i,
    {
        let diagnostic = &diagnostics[i];
        assert(diagnostic_fits(diagnostics@[i as int]));
        errors.push(
            Fields::new().with("message", Json::string(diagnostic.message.as_str())).with(
                "range",
                cursor_diagnostic_range(diagnostic),
            ).with("relatedInformation", Json::empty_array()).with(
                "severity",
                severity_json(diagnostic),
            ).with("isStale", Json::Bool(false)).object(),
        );
        i += 1;
    }
    assert(json_views(errors@) =~= diagnostics@.map_values(
        |d: ActiveBufferDiagnostic| linter_error_value(d),
    ));
    Fields::new().with("relativeWorkspacePath", Json::string(relative_path)).with(
        "errors",
        Json::array(errors),
    ).with("fileContents", Json::string(contents)).object()
}

/// A text ends in a row and a column that are no more than its length.
proof fn lemma_position_bound(s: Seq<char>)
    ensures
        row_after(s) <= s.len(),
        column_after(s) <= s.len(),
    decreases s.len(),
{
    if s.len() > 0 {
        lemma_position_bound(s.drop_last());
        lemma_text_lines_nonempty(s.drop_last());
    }
}

/// In a text whose length is a number of 32 bits, so is every row and column.
pub proof fn law_short_text_fits(s: Seq<char>, offset: nat)
    requires
        s.len() <= u32::MAX,
    ensures
        position_fits(s, offset),
{
    lemma_prefix_is_take(s, offset);
    assert forall|k: int| 0 <= k <= prefix_before(s, offset).len() implies row_after(
        #[trigger] s.take(k),
    ) <= u32::MAX && column_after(s.take(k)) <= u32::MAX by {
        lemma_position_bound(s.take(k));
    }
}

/// A longer text ends in a later row, or in the same row and no earlier column.
proof fn lemma_position_take(s: Seq<char>, k: int)
    requires
        0 <= k <= s.len(),
    ensures
        row_after(s.take(k)) < row_after(s) || (row_after(s.take(k)) == row_after(s)
            && column_after(s.take(k)) <= column_after(s)),
    decreases s.len(),
{
    if k < s.len() {
        assert(s.drop_last().take(k) == s.take(k));
        lemma_position_take(s.drop_last(), k);
        lemma_text_lines_nonempty(s.drop_last());
    } else {
        assert(s.take(k) == s);
    }
}

/// What stands before `offset` is a beginning of the text.
proof fn lemma_prefix_is_take(s: Seq<char>, offset: nat)
    ensures
        prefix_before(s, offset).len() <= s.len(),
        prefix_before(s, offset) == s.take(prefix_before(s, offset).len() as int),
    decreases s.len(),
{
    if s.len() == 0 || byte_len(s.drop_last()) < offset {
        assert(s.take(s.len() as int) == s);
    } else {
        lemma_prefix_is_take(s.drop_last(), offset);
        let n = prefix_before(s, offset).len() as int;
        assert(s.drop_last().take(n) == s.take(n));
    }
}

/// A later offset is no earlier place: its row is later, or its column in the same row is no
/// earlier.
pub proof fn law_positions_are_ordered(s: Seq<char>, start: nat, end: nat)
    requires
        start <= end,
    ensures
        ({
            let first = prefix_before(s, start);
            let last = prefix_before(s, end);
            row_after(first) < row_after(last) || (row_after(first) == row_after(last)
                && column_after(first) <= column_after(last))
        }),
    decreases s.len(),
{
    if s.len() == 0 || byte_len(s.drop_last()) < end {
        lemma_prefix_is_take(s, start);
        lemma_position_take(s, prefix_before(s, start).len() as int);
    } else {
        law_positions_are_ordered(s.drop_last(), start, end);
    }
}

/// What stands before byte `offset` is the beginning of the text that ends with the last character
/// that begins before that byte.
pub proof fn law_prefix_before(s: Seq<char>, offset: nat)
    ensures
        ({
            let k = prefix_before(s, offset).len() as int;
            &&& k <= s.len()
            &&& prefix_before(s, offset) == s.take(k)
            &&& k > 0 ==> byte_len(s.take(k - 1)) < offset
            &&& k < s.len() ==> byte_len(s.take(k)) >= offset
        }),
    decreases s.len(),
{
    lemma_prefix_is_take(s, offset);
    let k = prefix_before(s, offset).len() as int;
    if s.len() == 0 || byte_len(s.drop_last()) < offset {
        if s.len() > 0 {
            assert(s.take(k - 1) == s.drop_last());
        }
    } else {
        law_prefix_before(s.drop_last(), offset);
        assert(s.take(k) == s.drop_last().take(k));
        if k > 0 {
            assert(s.take(k - 1) == s.drop_last().take(k - 1));
        }
        if k == s.len() - 1 {
            assert(s.take(k) == s.drop_last());
        }
    }
}

/// The row behind a text is the number of its line feeds, and the column the number of characters
/// behind the last of them.
pub proof fn law_row_and_column(s: Seq<char>)
    ensures
        row_after(s) == s.filter(|c: char| c == '\n').len(),
        column_after(s) <= s.len(),
        forall|k: int| s.len() - column_after(s) <= k < s.len() ==> #[trigger] s[k] != '\n',
        column_after(s) < s.len() ==> s[s.len() - column_after(s) - 1] == '\n',
    decreases s.len(),
{
    reveal(Seq::filter);
    if s.len() > 0 {
        let shorter = s.drop_last();
        law_row_and_column(shorter);
        lemma_text_lines_nonempty(shorter);
        assert forall|k: int| s.len() - column_after(s) <= k < s.len() implies #[trigger] s[k]
            != '\n' by {
            if k < shorter.len() {
                assert(shorter[k] == s[k]);
            }
        }
        if s.last() != '\n' && column_after(s) < s.len() {
            assert(shorter[shorter.len() - column_after(shorter) - 1] == s[s.len() - column_after(s)
                - 1]);
        }
    } else {
        assert(text_lines(s).last().len() == 0);
    }
}

/// A diagnostic is sent with the rows and columns that it marks, the rows counted from the first
/// row of the buffer.
pub proof fn law_diagnostic_range(d: ActiveBufferDiagnostic)
    ensures
        ({
            let first = d.snippet_buffer_row_range.start;
            let start = prefix_before(d.snippet@, d.diagnostic_range_in_snippet.start as nat);
            let end = prefix_before(d.snippet@, d.diagnostic_range_in_snippet.end as nat);
            let range = diagnostic_range_value(d);
            &&& range matches JsonView::Object(fields) && fields.len() == 4
            &&& field(range, "startLine"@) == Some(JsonView::Int(first + row_after(start)))
            &&& field(range, "startColumn"@) == Some(JsonView::Int(column_after(start) as int))
            &&& field(range, "endLine"@) == Some(JsonView::Int(first + row_after(end)))
            &&& field(range, "endColumn"@) == Some(JsonView::Int(column_after(end) as int))
        }),
{
    broadcast use lemma_lookup_push;
    reveal_strlit("startLine");
    reveal_strlit("startColumn");
    reveal_strlit("endLine");
    reveal_strlit("endColumn");
    assert("startLine"@.len() == 9);
    assert("startColumn"@.len() == 11);
    assert("endLine"@.len() == 7);
    assert("endColumn"@.len() == 9);
    assert("startLine"@[0] != "endColumn"@[0]);
}

/// Every diagnostic is sent with the file, in its place, with its own message, range and severity.
pub proof fn law_diagnostics_are_sent(diagnostics: Seq<ActiveBufferDiagnostic>, i: int)
    requires
        0 <= i < diagnostics.len(),
    ensures
        diagnostics_value(diagnostics) matches JsonView::Array(items) && items.len()
            == diagnostics.len() && ({
            let d = diagnostics[i];
            &&& items[i] matches JsonView::Object(fields) && fields.len() == 4
            &&& field(items[i], "message"@) == Some(JsonView::Str(d.message@))
            &&& field(items[i], "range"@) == Some(diagnostic_range_value(d))
            &&& d.severity matches Some(n) ==> field(items[i], "severity"@) == Some(
                JsonView::Int(n as int),
            )
            &&& d.severity is None ==> field(items[i], "severity"@) == Some(JsonView::Int(0))
            &&& field(items[i], "relatedInformation"@) == Some(JsonView::Array(Seq::empty()))
        }),
{
    broadcast use lemma_lookup_push;
    reveal_strlit("message");
    reveal_strlit("range");
    reveal_strlit("severity");
    reveal_strlit("relatedInformation");
    assert("message"@.len() == 7);
    assert("range"@.len() == 5);
    assert("severity"@.len() == 8);
    assert("relatedInformation"@.len() == 18);
    assert(diagnostics_value(diagnostics)->Array_0[i] == diagnostic_value(diagnostics[i]));
}

/// The linter errors name the file, hold its contents whole, and every diagnostic in its place,
/// with its own message, range and severity.
pub proof fn law_linter_errors_are_sent(
    relative_path: Seq<char>,
    contents: Seq<char>,
    diagnostics: Seq<ActiveBufferDiagnostic>,
    i: int,
)
    ensures
        ({
            let value = linter_errors_value(relative_path, contents, diagnostics);
            &&& value matches JsonView::Object(fields) && fields.len() == 3
            &&& field(value, "relativeWorkspacePath"@) == Some(JsonView::Str(relative_path))
            &&& field(value, "fileContents"@) == Some(JsonView::Str(contents))
            &&& field(value, "errors"@) matches Some(JsonView::Array(items)) && items.len()
                == diagnostics.len() && (0 <= i < diagnostics.len() ==> {
                let d = diagnostics[i];
                &&& items[i] matches JsonView::Object(fields) && fields.len() == 5
                &&& field(items[i], "message"@) == Some(JsonView::Str(d.message@))
                &&& field(items[i], "range"@) == Some(diagnostic_range_value(d))
                &&& d.severity matches Some(n) ==> field(items[i], "severity"@) == Some(
                    JsonView::Int(n as int),
                )
                &&& d.severity is None ==> field(items[i], "severity"@) == Some(JsonView::Int(0))
                &&& field(items[i], "relatedInformation"@) == Some(JsonView::Array(Seq::empty()))
                &&& field(items[i], "isStale"@) == Some(JsonView::Bool(false))
            })
        }),
{
    broadcast use lemma_lookup_push;
    reveal_strlit("message");
    reveal_strlit("range");
    reveal_strlit("relatedInformation");
    reveal_strlit("severity");
    reveal_strlit("isStale");
    reveal_strlit("relativeWorkspacePath");
    reveal_strlit("errors");
    reveal_strlit("fileContents");
    assert("message"@.len() == 7);
    assert("range"@.len() == 5);
    assert("relatedInformation"@.len() == 18);
    assert("severity"@.len() == 8);
    assert("isStale"@.len() == 7);
    assert("relativeWorkspacePath"@.len() == 21);
    assert("errors"@.len() == 6);
    assert("fileContents"@.len() == 12);
    assert("message"@[0] != "isStale"@[0]);
}

/// A diagnostic can be sent just if the rows and columns up to its ends can be counted in 32 bits,
/// also from the first row of the buffer.
pub proof fn law_which_diagnostics_fit(d: ActiveBufferDiagnostic)
    ensures
        d.snippet@.len() <= u32::MAX ==> (diagnostic_fits(d) <==> {
            let first = d.snippet_buffer_row_range.start;
            let start = prefix_before(d.snippet@, d.diagnostic_range_in_snippet.start as nat);
            let end = prefix_before(d.snippet@, d.diagnostic_range_in_snippet.end as nat);
            first + row_after(start) <= u32::MAX && first + row_after(end) <= u32::MAX
        }),
{
    if d.snippet@.len() <= u32::MAX {
        law_short_text_fits(d.snippet@, d.diagnostic_range_in_snippet.start as nat);
        law_short_text_fits(d.snippet@, d.diagnostic_range_in_snippet.end as nat);
    }
}

/// Positions up to an offset can be counted just if the number of line feeds, and the length of the
/// last line, of each beginning of what stands before it are numbers of 32 bits; of diagnostics all
/// count.
pub proof fn law_which_positions_fit(
    s: Seq<char>,
    offset: nat,
    diagnostics: Seq<ActiveBufferDiagnostic>,
)
    ensures
        position_fits(s, offset) <==> forall|k: int|
            0 <= k <= prefix_before(s, offset).len() ==> text_lines(#[trigger] s.take(k)).len()
                <= 0x1_0000_0000 && text_lines(s.take(k)).last().len() < 0x1_0000_0000,
        diagnostics_fit(diagnostics) <==> forall|i: int|
            0 <= i < diagnostics.len() ==> diagnostic_fits(#[trigger] diagnostics[i]),
{
    if position_fits(s, offset) {
        assert forall|k: int| 0 <= k <= prefix_before(s, offset).len() implies text_lines(
            #[trigger] s.take(k),
        ).len() <= 0x1_0000_0000 && text_lines(s.take(k)).last().len() < 0x1_0000_0000 by {
            assert(row_after(s.take(k)) <= u32::MAX);
        }
    }
}

} // verus!
