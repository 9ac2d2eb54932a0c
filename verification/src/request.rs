//! The request for a prediction.
use crate::context::{
    additional_files_json, append_open_buffer_additional_files, check_related_files,
    cursor_additional_files, cursor_code_results, cursor_file_diff_histories, diff_history_of,
    file_diff_histories_json, BufferChange, OpenBuffer, RelatedFile,
};
#[allow(unused_imports)]
use crate::context::{
    additional_files_value, code_results, diffs_of, file_views, files_with_open_buffers, grouped,
    histories_value, law_files_are_sent, law_grouped, law_open_buffers_add_other_files, recent,
    related_file_view, related_files_fit, strings_value,
};
use crate::diagnostics::{
    check_diagnostics, cursor_diagnostics, cursor_linter_errors, ActiveBufferDiagnostic,
};
#[allow(unused_imports)]
use crate::diagnostics::{diagnostics_fit, diagnostics_value, linter_errors_value};
use crate::json::{Fields, Json};
#[allow(unused_imports)]
use crate::json::{field, lemma_lookup_push, no_fields, string_views, JsonView};
use crate::labels::cursor_lsp_suggested_items;
#[allow(unused_imports)]
use crate::labels::suggested_items_value;
use crate::path::relative_cursor_path;
#[allow(unused_imports)]
use crate::path::{optional_str, optional_text, relative_path};
use crate::point::{ExternalPosition, Point, PointRange};
use crate::text::{chars_of, contains, is_at, remove_whitespace, to_ascii_lowercase};
#[allow(unused_imports)]
use crate::text::{
    begins_with, contains_text, find_text, is_space, law_lowered, law_nothing_to_remove,
    law_without_space, lemma_find_text, lemma_text_lines_nonempty, lower_char,
    lowered, occurs_at, text_lines, without_space,
};
use crate::wire::ExternalEditPredictionRequest;
use vstd::prelude::*;

verus! {

// ---------------------------------------------------------------------------
// The current file
// ---------------------------------------------------------------------------
/// The file that is edited: its path in the project, for a local file its path on disk, and the
/// root of its workspace.
#[derive(Debug, PartialEq, Eq)]
pub struct CurrentFile {
    pub path: String,
    pub absolute_path: Option<String>,
    pub workspace_root: Option<String>,
}

/// The name of a language as it is sent: in small letters and without white space.
pub open spec fn language_name(language: Option<Seq<char>>) -> Seq<char> {
    match language {
        Some(name) => without_space(lowered(name)),
        None => without_space(lowered("plaintext"@)),
    }
}

/// The name of a language as it is sent.
pub fn language_id(language: Option<&str>) -> (r: String)
    ensures
        r@ == language_name(optional_str(language)),
{
    let name: &str = match language {
        Some(name) => name,
        None => "plaintext",
    };
    remove_whitespace(to_ascii_lowercase(name).as_str())
}

/// The line ending of a text: that of Windows if it occurs.
pub open spec fn line_ending_of(contents: Seq<char>) -> Seq<char> {
    if contains_text(contents, "\r\n"@) {
        "\r\n"@
    } else {
        "\n"@
    }
}

/// The line ending of a text.
pub fn line_ending(contents: &str) -> (r: &'static str)
    ensures
        r@ == line_ending_of(contents@),
{
    if contains(contents, "\r\n") {
        "\r\n"
    } else {
        "\n"
    }
}

/// The number of pieces of `s` between the occurrences of `separator`.
pub open spec fn pieces(s: Seq<char>, separator: Seq<char>) -> nat
    decreases s.len(),
{
    if separator.len() == 0 || s.len() < separator.len() {
        1
    } else if begins_with(s, separator) {
        1 + pieces(s.skip(separator.len() as int), separator)
    } else {
        pieces(s.drop_first(), separator)
    }
}

/// The number of pieces of the text between the occurrences of the separator.
fn count_pieces(s: &str, separator: &str) -> (r: u128)
    requires
        separator@.len() > 0,
    ensures
        r == pieces(s@, separator@),
        r <= s@.len() + 1 <= usize::MAX + 1,
{
    let chars = chars_of(s);
    let len: usize = chars.len();
    let wanted = chars_of(separator);
    let mut count: u128 = 1;
    let mut i: usize = 0;
    assert(chars@.skip(0) == chars@);
    while i < chars.len()
        invariant
            len == chars@.len(),
            wanted@.len() > 0,
            i <= chars@.len(),
            1 <= count <= i + 1,
            pieces(chars@, wanted@) == count - 1 + pieces(chars@.skip(i as int), wanted@),
        decreases chars@.len() - i,
    {
        let ghost rest = chars@.skip(i as int);
        let found = is_at(&chars, &wanted, i);
        assert(found == begins_with(rest, wanted@)) by {
            if i + wanted@.len() <= chars@.len() {
                assert(chars@.subrange(i as int, i + wanted@.len()) == rest.subrange(
                    0,
                    wanted@.len() as int,
                ));
            }
        }
        if found {
            assert(rest.skip(wanted@.len() as int) == chars@.skip(i + wanted@.len()));
            count += 1;
            i += wanted.len();
        } else {
            assert(rest.drop_first() == chars@.skip(i + 1));
            proof {
                if rest.len() < wanted@.len() {
                    assert(pieces(rest.drop_first(), wanted@) == 1);
                }
            }
            i += 1;
        }
    }
    count
}

/// How many rows above and below the cursor diagnostics are looked for.
pub const DIAGNOSTIC_SEARCH_ROWS: u32 = 20;

/// The rows around the cursor in which diagnostics are looked for.
pub fn diagnostic_search_range(cursor: Point) -> (r: PointRange)
    requires
        cursor.row + DIAGNOSTIC_SEARCH_ROWS <= u32::MAX,
    ensures
        r.start.column == 0 && r.end.column == 0,
        r.end.row == cursor.row + DIAGNOSTIC_SEARCH_ROWS,
        cursor.row >= DIAGNOSTIC_SEARCH_ROWS ==> r.start.row == cursor.row - DIAGNOSTIC_SEARCH_ROWS,
        cursor.row < DIAGNOSTIC_SEARCH_ROWS ==> r.start.row == 0,
        r.end.row == cursor.row + 20,
        cursor.row >= 20 ==> r.start.row == cursor.row - 20,
        cursor.row < 20 ==> r.start.row == 0,
{
    let start: u32 = if cursor.row < DIAGNOSTIC_SEARCH_ROWS {
        0
    } else {
        cursor.row - DIAGNOSTIC_SEARCH_ROWS
    };
    PointRange {
        start: Point::new(start, 0),
        end: Point::new(cursor.row + DIAGNOSTIC_SEARCH_ROWS, 0),
    }
}

// ---------------------------------------------------------------------------
// The request
// ---------------------------------------------------------------------------
/// What the editor knows besides the current file: the changes so far, oldest first, related
/// files, open buffers and the diagnostics around the cursor.
#[derive(Debug, PartialEq, Eq)]
pub struct EditorContext {
    pub events: Vec<BufferChange>,
    pub related_files: Vec<RelatedFile>,
    pub open_buffers: Vec<OpenBuffer>,
    pub active_buffer_diagnostics: Vec<ActiveBufferDiagnostic>,
}

impl EditorContext {
    /// Rows and columns can be written in the numbers that are sent.
    pub open spec fn fits(self) -> bool {
        &&& related_files_fit(self.related_files@)
        &&& diagnostics_fit(self.active_buffer_diagnostics@)
    }

    /// Whether rows and columns can be written in the numbers that are sent.
    pub fn check(&self) -> (r: bool)
        ensures
            r == self.fits(),
    {
        check_related_files(self.related_files.as_slice()) && check_diagnostics(
            self.active_buffer_diagnostics.as_slice(),
        )
    }
}

/// An empty array.
pub open spec fn nothing() -> JsonView {
    JsonView::Array(Seq::empty())
}

/// A text that may be missing, as it is sent: empty where it is.
pub open spec fn text_or_empty(s: Option<Seq<char>>) -> JsonView {
    match s {
        Some(text) => JsonView::Str(text),
        None => JsonView::Str(""@),
    }
}

/// The current file as it is sent.
pub open spec fn current_file_value(
    relative: Seq<char>,
    workspace_root: Option<Seq<char>>,
    language: Option<Seq<char>>,
    contents: Seq<char>,
    cursor: Point,
    diagnostics: Seq<ActiveBufferDiagnostic>,
) -> JsonView {
    JsonView::Object(
        no_fields()
            .push(("relativeWorkspacePath"@, JsonView::Str(relative)))
            .push(("contents"@, JsonView::Str(contents)))
            .push((
                "cursorPosition"@,
                JsonView::Object(
                    no_fields()
                        .push(("line"@, JsonView::Int(cursor.row as int)))
                        .push(("column"@, JsonView::Int(cursor.column as int))),
                ),
            ))
            .push(("dataframes"@, nothing()))
            .push(("languageId"@, JsonView::Str(language_name(language))))
            .push(("diagnostics"@, diagnostics_value(diagnostics)))
            .push((
                "totalNumberOfLines"@,
                JsonView::Int(pieces(contents, line_ending_of(contents)) as int),
            ))
            .push(("contentsStartAtLine"@, JsonView::Int(0)))
            .push(("topChunks"@, nothing()))
            .push(("fileVersion"@, JsonView::Int(0)))
            .push(("cellStartLines"@, nothing()))
            .push(("cells"@, nothing()))
            .push(("relyOnFilesync"@, JsonView::Bool(false)))
            .push(("workspaceRootPath"@, text_or_empty(workspace_root)))
            .push(("lineEnding"@, JsonView::Str(line_ending_of(contents)))),
    )
}

/// The detailed part of the request.
pub open spec fn cursor_request_value(
    path: Seq<char>,
    absolute_path: Option<Seq<char>>,
    workspace_root: Option<Seq<char>>,
    language: Option<Seq<char>>,
    contents: Seq<char>,
    cursor: Point,
    labels: Seq<Seq<char>>,
    context: EditorContext,
) -> JsonView {
    let relative = relative_path(path, absolute_path, workspace_root);
    let diagnostics = context.active_buffer_diagnostics@;
    let changes = recent(context.events@);
    let related = context.related_files@.map_values(|f: RelatedFile| related_file_view(f));
    let files = files_with_open_buffers(related, context.open_buffers@, relative, workspace_root);
    JsonView::Object(
        no_fields()
            .push((
                "currentFile"@,
                current_file_value(relative, workspace_root, language, contents, cursor, diagnostics),
            ))
            .push(("diffHistory"@, strings_value(diffs_of(changes, relative))))
            .push(("diffHistoryKeys"@, nothing()))
            .push(("fileDiffHistories"@, histories_value(grouped(changes))))
            .push(("mergedDiffHistories"@, nothing()))
            .push(("blockDiffPatches"@, nothing()))
            .push(("contextItems"@, nothing()))
            .push(("parameterHints"@, nothing()))
            .push(("lspContexts"@, nothing()))
            .push((
                "cppIntentInfo"@,
                JsonView::Object(no_fields().push(("source"@, JsonView::Str("line_change"@)))),
            ))
            .push(("enableMoreContext"@, JsonView::Bool(true)))
            .push(("workspaceId"@, text_or_empty(workspace_root)))
            .push(("additionalFiles"@, additional_files_value(files)))
            .push(("clientTime"@, JsonView::Int(0)))
            .push(("filesyncUpdates"@, nothing()))
            .push(("timeSinceRequestStart"@, JsonView::Int(0)))
            .push(("timeAtRequestSend"@, JsonView::Int(0)))
            .push(("clientTimezoneOffset"@, JsonView::Int(0)))
            .push(("lspSuggestedItems"@, suggested_items_value(labels)))
            .push(("supportsCpt"@, JsonView::Bool(false)))
            .push(("supportsCrlfCpt"@, JsonView::Bool(false)))
            .push(("codeResults"@, JsonView::Array(code_results(context.related_files@))))
            .push(("linterErrors"@, linter_errors_value(relative, contents, diagnostics))),
    )
}

/// The text, or an empty one where it is missing.
fn text_json(s: Option<&str>) -> (r: Json)
    ensures
        r@ == text_or_empty(optional_str(s)),
{
    match s {
        Some(text) => Json::string(text),
        None => Json::string(""),
    }
}

/// The current file as it is sent.
fn current_file_json(
    relative: &str,
    workspace_root: Option<&str>,
    language: Option<&str>,
    contents: &str,
    cursor: Point,
    diagnostics: &[ActiveBufferDiagnostic],
) -> (r: Json)
    requires
        diagnostics_fit(diagnostics@),
    ensures
        r@ == current_file_value(
            relative@,
            optional_str(workspace_root),
            optional_str(language),
            contents@,
            cursor,
            diagnostics@,
        ),
{
    let ending = line_ending(contents);
    proof {
        reveal_strlit("\r\n");
        reveal_strlit("\n");
    }
    let lines: u128 = count_pieces(contents, ending);
    let position = Fields::new()
        .with("line", Json::Int(cursor.row as i128))
        .with("column", Json::Int(cursor.column as i128))
        .object();
    Fields::new()
        .with("relativeWorkspacePath", Json::string(relative))
        .with("contents", Json::string(contents))
        .with("cursorPosition", position)
        .with("dataframes", Json::empty_array())
        .with("languageId", Json::Str(language_id(language)))
        .with("diagnostics", cursor_diagnostics(diagnostics))
        .with("totalNumberOfLines", Json::Int(lines as i128))
        .with("contentsStartAtLine", Json::Int(0))
        .with("topChunks", Json::empty_array())
        .with("fileVersion", Json::Int(0))
        .with("cellStartLines", Json::empty_array())
        .with("cells", Json::empty_array())
        .with("relyOnFilesync", Json::Bool(false))
        .with("workspaceRootPath", text_json(workspace_root))
        .with("lineEnding", Json::string(ending))
        .object()
}

/// The detailed part of the request.
pub fn build_cursor_request(
    path: &str,
    absolute_path: Option<&str>,
    workspace_root: Option<&str>,
    language: Option<&str>,
    contents: &str,
    cursor: Point,
    lsp_suggested_labels: &[String],
    context: &EditorContext,
) -> (r: Option<Json>)
    requires
        context.fits(),
    ensures
        r is Some,
        r->0@ == cursor_request_value(
            path@,
            optional_str(absolute_path),
            optional_str(workspace_root),
            optional_str(language),
            contents@,
            cursor,
            string_views(lsp_suggested_labels@),
            *context,
        ),
{
    let relative = relative_cursor_path(path, absolute_path, workspace_root);
    let diagnostics = context.active_buffer_diagnostics.as_slice();
    let histories = cursor_file_diff_histories(context.events.as_slice());
    proof {
        law_grouped(recent(context.events@), relative@);
    }
    let mut files = cursor_additional_files(context.related_files.as_slice());
    append_open_buffer_additional_files(
        &mut files,
        context.open_buffers.as_slice(),
        relative.as_str(),
        workspace_root,
    );
    let current_file = current_file_json(
        relative.as_str(),
        workspace_root,
        language,
        contents,
        cursor,
        diagnostics,
    );
    let request = Fields::new()
        .with("currentFile", current_file)
        .with("diffHistory", diff_history_of(&histories, &relative))
        .with("diffHistoryKeys", Json::empty_array())
        .with("fileDiffHistories", file_diff_histories_json(&histories))
        .with("mergedDiffHistories", Json::empty_array())
        .with("blockDiffPatches", Json::empty_array())
        .with("contextItems", Json::empty_array())
        .with("parameterHints", Json::empty_array())
        .with("lspContexts", Json::empty_array())
        .with("cppIntentInfo", Fields::new().with("source", Json::string("line_change")).object())
        .with("enableMoreContext", Json::Bool(true))
        .with("workspaceId", text_json(workspace_root))
        .with("additionalFiles", additional_files_json(&files))
        .with("clientTime", Json::Int(0))
        .with("filesyncUpdates", Json::empty_array())
        .with("timeSinceRequestStart", Json::Int(0))
        .with("timeAtRequestSend", Json::Int(0))
        .with("clientTimezoneOffset", Json::Int(0))
        .with("lspSuggestedItems", cursor_lsp_suggested_items(lsp_suggested_labels))
        .with("supportsCpt", Json::Bool(false))
        .with("supportsCrlfCpt", Json::Bool(false))
        .with("codeResults", cursor_code_results(context.related_files.as_slice()))
        .with("linterErrors", cursor_linter_errors(relative.as_str(), contents, diagnostics))
        .object();
    Some(request)
}

/// The path of the current file as it is sent.
pub open spec fn current_path(file: Option<CurrentFile>) -> Seq<char> {
    match file {
        Some(f) => f.path@,
        None => "untitled"@,
    }
}

/// The path on disk of the current file.
pub open spec fn current_absolute_path(file: Option<CurrentFile>) -> Option<Seq<char>> {
    match file {
        Some(f) => optional_text(f.absolute_path),
        None => None,
    }
}

/// The root of the workspace of the current file.
pub open spec fn current_workspace_root(file: Option<CurrentFile>) -> Option<Seq<char>> {
    match file {
        Some(f) => optional_text(f.workspace_root),
        None => None,
    }
}

/// The text behind an optional string.
fn as_str_option(s: &Option<String>) -> (r: Option<&str>)
    ensures
        optional_str(r) == optional_text(*s),
{
    match s {
        Some(text) => Some(text.as_str()),
        None => None,
    }
}

/// The version of the requests.
pub const REQUEST_VERSION: u32 = 1;

/// `request` is the request for a prediction at `cursor` in a buffer that shows `file` and holds
/// `contents`, with the suggestions `labels`.
pub open spec fn is_request(
    request: ExternalEditPredictionRequest,
    file: Option<CurrentFile>,
    language: Option<Seq<char>>,
    contents: Seq<char>,
    cursor: Point,
    labels: Seq<Seq<char>>,
    context: EditorContext,
) -> bool {
    &&& request.version == REQUEST_VERSION
    &&& request.path@ == current_path(file)
    &&& optional_text(request.absolute_path) == current_absolute_path(file)
    &&& optional_text(request.workspace_root) == current_workspace_root(file)
    &&& optional_text(request.language) == language
    &&& request.contents@ == contents
    &&& request.cursor == (ExternalPosition { line: cursor.row, column: cursor.column })
    &&& request.cursor_request is Some
    &&& request.cursor_request->0@ == cursor_request_value(
        current_path(file),
        current_absolute_path(file),
        current_workspace_root(file),
        language,
        contents,
        cursor,
        labels,
        context,
    )
}

/// The request for a prediction at `cursor` in a buffer that shows `file` and holds `contents`.
pub fn build_request(
    file: Option<CurrentFile>,
    language: Option<String>,
    contents: String,
    cursor: Point,
    lsp_suggested_labels: &[String],
    context: &EditorContext,
) -> (r: ExternalEditPredictionRequest)
    requires
        context.fits(),
    ensures
        is_request(
            r,
            file,
            optional_text(language),
            contents@,
            cursor,
            string_views(lsp_suggested_labels@),
            *context,
        ),
{
    let (path, absolute_path, workspace_root): (String, Option<String>, Option<String>) = match file {
        Some(f) => (f.path, f.absolute_path, f.workspace_root),
        None => ("untitled".to_owned(), None, None),
    };
    let cursor_request = build_cursor_request(
        path.as_str(),
        as_str_option(&absolute_path),
        as_str_option(&workspace_root),
        as_str_option(&language),
        contents.as_str(),
        cursor,
        lsp_suggested_labels,
        context,
    );
    ExternalEditPredictionRequest {
        version: REQUEST_VERSION,
        path,
        absolute_path,
        workspace_root,
        language,
        contents,
        cursor: ExternalPosition::from(cursor),
        cursor_request,
    }
}

/// The name of a language as it is sent has neither white space nor ASCII capital letters.
pub proof fn law_language_name(language: Option<Seq<char>>, i: int)
    requires
        0 <= i < language_name(language).len(),
    ensures
        !is_space(language_name(language)[i]),
        !('A' <= language_name(language)[i] <= 'Z'),
{
    let name = match language {
        Some(name) => name,
        None => "plaintext"@,
    };
    law_without_space(lowered(name), i);
    let k = choose|k: int|
        0 <= k < lowered(name).len() && lowered(name)[k] == without_space(lowered(name))[i];
    assert(lowered(name)[k] == lower_char(name[k]));
}

/// One more line feed makes one more piece.
proof fn lemma_pieces_push(s: Seq<char>, c: char)
    ensures
        pieces(s.push(c), "\n"@) == pieces(s, "\n"@) + if c == '\n' {
            1nat
        } else {
            0
        },
    decreases s.len(),
{
    reveal_strlit("\n");
    let more = s.push(c);
    assert(more.subrange(0, 1)[0] == more[0]);
    if s.len() == 0 {
        if c == '\n' {
            assert(more.subrange(0, 1) =~= "\n"@);
        }
        assert(more.skip(1) == s);
        assert(more.drop_first() == s);
    } else {
        assert(s.subrange(0, 1)[0] == s[0]);
        if s[0] == '\n' {
            assert(s.subrange(0, 1) =~= "\n"@);
            assert(more.subrange(0, 1) =~= "\n"@);
        }
        assert(more.skip(1) == s.skip(1).push(c));
        assert(more.drop_first() == s.drop_first().push(c));
        assert(s.skip(1) == s.drop_first());
        lemma_pieces_push(s.drop_first(), c);
    }
}

/// A text has as many lines as pieces between line feeds, and that is the number of lines that is
/// sent unless its line ending is that of Windows.
pub proof fn law_number_of_lines(contents: Seq<char>)
    ensures
        pieces(contents, "\n"@) == text_lines(contents).len(),
        !contains_text(contents, "\r\n"@) ==> pieces(contents, line_ending_of(contents))
            == text_lines(contents).len(),
    decreases contents.len(),
{
    reveal_strlit("\n");
    if contents.len() > 0 {
        law_number_of_lines(contents.drop_last());
        lemma_pieces_push(contents.drop_last(), contents.last());
        lemma_text_lines_nonempty(contents.drop_last());
        assert(contents.drop_last().push(contents.last()) == contents);
    }
}

// ---------------------------------------------------------------------------
// What the request holds, field by field
// ---------------------------------------------------------------------------
/// A language is sent under its name in small letters and without white space, and no language as
/// plain text.
pub proof fn law_language(name: Seq<char>)
    ensures
        language_name(Some(name)) == without_space(lowered(name)),
        language_name(None) == "plaintext"@,
{
    reveal_strlit("plaintext");
    let plain = "plaintext"@;
    law_lowered(plain);
    assert(plain.len() == 9);
    assert forall|i: int| 0 <= i < plain.len() implies 'a' <= #[trigger] plain[i] <= 'z' by {
        assert(plain[0] == 'p' && plain[1] == 'l' && plain[2] == 'a' && plain[3] == 'i' && plain[4]
            == 'n' && plain[5] == 't' && plain[6] == 'e' && plain[7] == 'x' && plain[8] == 't');
    }
    assert(lowered(plain) =~= plain);
    assert forall|i: int| 0 <= i < plain.len() implies !is_space(#[trigger] plain[i]) by {
        assert('a' <= plain[i] <= 'z');
    }
    law_nothing_to_remove(plain);
}

/// The line ending is a carriage return and a line feed just if these follow one another somewhere,
/// else a line feed.
pub proof fn law_line_ending(contents: Seq<char>)
    ensures
        line_ending_of(contents) == "\r\n"@ <==> exists|i: int|
            0 <= i < contents.len() - 1 && #[trigger] contents[i] == '\r' && contents[i + 1] == '\n',
        line_ending_of(contents) == "\r\n"@ || line_ending_of(contents) == "\n"@,
{
    reveal_strlit("\r\n");
    reveal_strlit("\n");
    let ending = "\r\n"@;
    assert(ending.len() == 2 && ending[0] == '\r' && ending[1] == '\n');
    assert("\n"@.len() == 1);
    if contains_text(contents, ending) {
        let i = choose|i: int| occurs_at(contents, ending, i);
        assert(contents.subrange(i, i + 2)[0] == contents[i]);
        assert(contents.subrange(i, i + 2)[1] == contents[i + 1]);
    }
    if exists|i: int|
        0 <= i < contents.len() - 1 && #[trigger] contents[i] == '\r' && contents[i + 1] == '\n' {
        let i = choose|i: int|
            0 <= i < contents.len() - 1 && #[trigger] contents[i] == '\r' && contents[i + 1] == '\n';
        assert(contents.subrange(i, i + 2) =~= ending);
        assert(occurs_at(contents, ending, i));
    }
}

/// The pieces of a text are cut at the first separator, then at the first one behind it, and so on;
/// a text without a separator is one piece.
pub proof fn law_pieces(s: Seq<char>, separator: Seq<char>)
    requires
        separator.len() > 0,
    ensures
        find_text(s, separator) is None ==> pieces(s, separator) == 1,
        find_text(s, separator) matches Some(k) ==> pieces(s, separator) == 1 + pieces(
            s.skip(k + separator.len()),
            separator,
        ),
    decreases s.len(),
{
    lemma_find_text(s, separator);
    if s.len() >= separator.len() && !begins_with(s, separator) {
        let rest = s.drop_first();
        law_pieces(rest, separator);
        lemma_find_text(rest, separator);
        assert forall|j: int| 0 <= j implies occurs_at(rest, separator, j) == #[trigger] occurs_at(
            s,
            separator,
            j + 1,
        ) by {
            if j + separator.len() <= rest.len() {
                assert(rest.subrange(j, j + separator.len()) =~= s.subrange(
                    j + 1,
                    j + 1 + separator.len(),
                ));
            }
        }
        match find_text(s, separator) {
            Some(k) => {
                assert(k > 0);
                assert(occurs_at(rest, separator, k - 1) == occurs_at(s, separator, (k - 1) + 1));
                assert(contains_text(rest, separator));
                let j = find_text(rest, separator)->0;
                assert(occurs_at(rest, separator, j));
                assert(occurs_at(s, separator, j + 1));
                assert(j == k - 1);
                assert(rest.skip(j + separator.len()) =~= s.skip(k + separator.len()));
            },
            None => {
                if contains_text(rest, separator) {
                    let j = choose|j: int| occurs_at(rest, separator, j);
                    assert(occurs_at(s, separator, j + 1));
                }
            },
        }
    } else if begins_with(s, separator) {
        assert(contains_text(s, separator));
        assert(find_text(s, separator) == Some(0int));
    } else {
        assert(find_text(s, separator) is None) by {
            if contains_text(s, separator) {
                let j = choose|j: int| occurs_at(s, separator, j);
            }
        }
    }
}

/// The current file is sent with its path, its contents whole, the row and the column of the
/// cursor, its language, its diagnostics, the number of its lines, the root of its workspace and
/// its line ending; the other fields are the same for every file.
pub proof fn law_current_file_is_sent(
    relative: Seq<char>,
    workspace_root: Option<Seq<char>>,
    language: Option<Seq<char>>,
    contents: Seq<char>,
    cursor: Point,
    diagnostics: Seq<ActiveBufferDiagnostic>,
)
    ensures
        ({
            let file = current_file_value(
                relative,
                workspace_root,
                language,
                contents,
                cursor,
                diagnostics,
            );
            &&& file matches JsonView::Object(fields) && fields.len() == 15
            &&& field(file, "relativeWorkspacePath"@) == Some(JsonView::Str(relative))
            &&& field(file, "contents"@) == Some(JsonView::Str(contents))
            &&& field(file, "cursorPosition"@) matches Some(position) && ({
                &&& position matches JsonView::Object(fields) && fields.len() == 2
                &&& field(position, "line"@) == Some(JsonView::Int(cursor.row as int))
                &&& field(position, "column"@) == Some(JsonView::Int(cursor.column as int))
            })
            &&& field(file, "languageId"@) == Some(JsonView::Str(language_name(language)))
            &&& field(file, "diagnostics"@) == Some(diagnostics_value(diagnostics))
            &&& field(file, "totalNumberOfLines"@) == Some(
                JsonView::Int(pieces(contents, line_ending_of(contents)) as int),
            )
            &&& workspace_root matches Some(root) ==> field(file, "workspaceRootPath"@) == Some(
                JsonView::Str(root),
            )
            &&& workspace_root is None ==> field(file, "workspaceRootPath"@) == Some(
                JsonView::Str(""@),
            )
            &&& field(file, "lineEnding"@) == Some(JsonView::Str(line_ending_of(contents)))
            &&& field(file, "dataframes"@) == Some(JsonView::Array(Seq::empty()))
            &&& field(file, "topChunks"@) == Some(JsonView::Array(Seq::empty()))
            &&& field(file, "cellStartLines"@) == Some(JsonView::Array(Seq::empty()))
            &&& field(file, "cells"@) == Some(JsonView::Array(Seq::empty()))
            &&& field(file, "contentsStartAtLine"@) == Some(JsonView::Int(0))
            &&& field(file, "fileVersion"@) == Some(JsonView::Int(0))
            &&& field(file, "relyOnFilesync"@) == Some(JsonView::Bool(false))
        }),
{
    broadcast use lemma_lookup_push;
    reveal_strlit("relativeWorkspacePath");
    reveal_strlit("contents");
    reveal_strlit("cursorPosition");
    reveal_strlit("dataframes");
    reveal_strlit("languageId");
    reveal_strlit("diagnostics");
    reveal_strlit("totalNumberOfLines");
    reveal_strlit("contentsStartAtLine");
    reveal_strlit("topChunks");
    reveal_strlit("fileVersion");
    reveal_strlit("cellStartLines");
    reveal_strlit("cells");
    reveal_strlit("relyOnFilesync");
    reveal_strlit("workspaceRootPath");
    reveal_strlit("lineEnding");
    assert("relativeWorkspacePath"@.len() == 21);
    assert("contents"@.len() == 8);
    assert("cursorPosition"@.len() == 14);
    assert("dataframes"@.len() == 10);
    assert("languageId"@.len() == 10);
    assert("diagnostics"@.len() == 11);
    assert("totalNumberOfLines"@.len() == 18);
    assert("contentsStartAtLine"@.len() == 19);
    assert("topChunks"@.len() == 9);
    assert("fileVersion"@.len() == 11);
    assert("cellStartLines"@.len() == 14);
    assert("cells"@.len() == 5);
    assert("relyOnFilesync"@.len() == 14);
    assert("workspaceRootPath"@.len() == 17);
    assert("lineEnding"@.len() == 10);
    assert("cursorPosition"@[1] != "cellStartLines"@[1]);
    assert("cursorPosition"@[0] != "relyOnFilesync"@[0]);
    assert("dataframes"@[0] != "languageId"@[0]);
    assert("dataframes"@[0] != "lineEnding"@[0]);
    assert("languageId"@[1] != "lineEnding"@[1]);
    assert("diagnostics"@[0] != "fileVersion"@[0]);
    assert("cellStartLines"@[0] != "relyOnFilesync"@[0]);
    reveal_strlit("line");
    reveal_strlit("column");
    assert("line"@.len() == 4);
    assert("column"@.len() == 6);
    let position = JsonView::Object(
        no_fields()
            .push(("line"@, JsonView::Int(cursor.row as int)))
            .push(("column"@, JsonView::Int(cursor.column as int))),
    );
    assert(field(position, "line"@) == Some(JsonView::Int(cursor.row as int)));
    assert(field(position, "column"@) == Some(JsonView::Int(cursor.column as int)));
}

/// The detailed part of a request holds the current file, the differences of its own recent changes,
/// those of all files, the related and open files, the suggestions, the excerpts as results and the
/// linter errors, all for the path under which the file is sent; the other fields are the same for
/// every request.
#[verifier::rlimit(40)]
pub proof fn law_cursor_request(
    path: Seq<char>,
    absolute_path: Option<Seq<char>>,
    workspace_root: Option<Seq<char>>,
    language: Option<Seq<char>>,
    contents: Seq<char>,
    cursor: Point,
    labels: Seq<Seq<char>>,
    context: EditorContext,
)
    ensures
        ({
            let relative = relative_path(path, absolute_path, workspace_root);
            let changes = recent(context.events@);
            let diagnostics = context.active_buffer_diagnostics@;
            let request = cursor_request_value(
                path,
                absolute_path,
                workspace_root,
                language,
                contents,
                cursor,
                labels,
                context,
            );
            &&& request matches JsonView::Object(fields) && fields.len() == 23
            &&& field(request, "currentFile"@) == Some(
                current_file_value(relative, workspace_root, language, contents, cursor, diagnostics),
            )
            &&& field(request, "diffHistory"@) == Some(strings_value(diffs_of(changes, relative)))
            &&& field(request, "fileDiffHistories"@) == Some(histories_value(grouped(changes)))
            &&& field(request, "cppIntentInfo"@) matches Some(info) && field(info, "source"@)
                == Some(JsonView::Str("line_change"@))
            &&& workspace_root matches Some(root) ==> field(request, "workspaceId"@) == Some(
                JsonView::Str(root),
            )
            &&& workspace_root is None ==> field(request, "workspaceId"@) == Some(
                JsonView::Str(""@),
            )
            &&& field(request, "additionalFiles"@) == Some(
                additional_files_value(
                    files_with_open_buffers(
                        context.related_files@.map_values(|f: RelatedFile| related_file_view(f)),
                        context.open_buffers@,
                        relative,
                        workspace_root,
                    ),
                ),
            )
            &&& field(request, "lspSuggestedItems"@) == Some(suggested_items_value(labels))
            &&& field(request, "codeResults"@) == Some(
                JsonView::Array(code_results(context.related_files@)),
            )
            &&& field(request, "linterErrors"@) == Some(
                linter_errors_value(relative, contents, diagnostics),
            )
            &&& field(request, "diffHistoryKeys"@) == Some(JsonView::Array(Seq::empty()))
            &&& field(request, "mergedDiffHistories"@) == Some(JsonView::Array(Seq::empty()))
            &&& field(request, "blockDiffPatches"@) == Some(JsonView::Array(Seq::empty()))
            &&& field(request, "contextItems"@) == Some(JsonView::Array(Seq::empty()))
            &&& field(request, "parameterHints"@) == Some(JsonView::Array(Seq::empty()))
            &&& field(request, "lspContexts"@) == Some(JsonView::Array(Seq::empty()))
            &&& field(request, "filesyncUpdates"@) == Some(JsonView::Array(Seq::empty()))
            &&& field(request, "clientTime"@) == Some(JsonView::Int(0))
            &&& field(request, "timeSinceRequestStart"@) == Some(JsonView::Int(0))
            &&& field(request, "timeAtRequestSend"@) == Some(JsonView::Int(0))
            &&& field(request, "clientTimezoneOffset"@) == Some(JsonView::Int(0))
            &&& field(request, "supportsCpt"@) == Some(JsonView::Bool(false))
            &&& field(request, "supportsCrlfCpt"@) == Some(JsonView::Bool(false))
            &&& field(request, "enableMoreContext"@) == Some(JsonView::Bool(true))
        }),
{
    broadcast use lemma_lookup_push;
    reveal_strlit("currentFile");
    reveal_strlit("diffHistory");
    reveal_strlit("diffHistoryKeys");
    reveal_strlit("fileDiffHistories");
    reveal_strlit("mergedDiffHistories");
    reveal_strlit("blockDiffPatches");
    reveal_strlit("contextItems");
    reveal_strlit("parameterHints");
    reveal_strlit("lspContexts");
    reveal_strlit("cppIntentInfo");
    reveal_strlit("enableMoreContext");
    reveal_strlit("workspaceId");
    reveal_strlit("additionalFiles");
    reveal_strlit("clientTime");
    reveal_strlit("filesyncUpdates");
    reveal_strlit("timeSinceRequestStart");
    reveal_strlit("timeAtRequestSend");
    reveal_strlit("clientTimezoneOffset");
    reveal_strlit("lspSuggestedItems");
    reveal_strlit("supportsCpt");
    reveal_strlit("supportsCrlfCpt");
    reveal_strlit("codeResults");
    reveal_strlit("linterErrors");
    assert("currentFile"@.len() == 11);
    assert("diffHistory"@.len() == 11);
    assert("diffHistoryKeys"@.len() == 15);
    assert("fileDiffHistories"@.len() == 17);
    assert("mergedDiffHistories"@.len() == 19);
    assert("blockDiffPatches"@.len() == 16);
    assert("contextItems"@.len() == 12);
    assert("parameterHints"@.len() == 14);
    assert("lspContexts"@.len() == 11);
    assert("cppIntentInfo"@.len() == 13);
    assert("enableMoreContext"@.len() == 17);
    assert("workspaceId"@.len() == 11);
    assert("additionalFiles"@.len() == 15);
    assert("clientTime"@.len() == 10);
    assert("filesyncUpdates"@.len() == 15);
    assert("timeSinceRequestStart"@.len() == 21);
    assert("timeAtRequestSend"@.len() == 17);
    assert("clientTimezoneOffset"@.len() == 20);
    assert("lspSuggestedItems"@.len() == 17);
    assert("supportsCpt"@.len() == 11);
    assert("supportsCrlfCpt"@.len() == 15);
    assert("codeResults"@.len() == 11);
    assert("linterErrors"@.len() == 12);
    assert("currentFile"@[0] != "diffHistory"@[0]);
    assert("currentFile"@[0] != "lspContexts"@[0]);
    assert("currentFile"@[0] != "workspaceId"@[0]);
    assert("currentFile"@[0] != "supportsCpt"@[0]);
    assert("currentFile"@[1] != "codeResults"@[1]);
    assert("diffHistory"@[0] != "lspContexts"@[0]);
    assert("diffHistory"@[0] != "workspaceId"@[0]);
    assert("diffHistory"@[0] != "supportsCpt"@[0]);
    assert("diffHistory"@[0] != "codeResults"@[0]);
    assert("diffHistoryKeys"@[0] != "additionalFiles"@[0]);
    assert("diffHistoryKeys"@[0] != "filesyncUpdates"@[0]);
    assert("diffHistoryKeys"@[0] != "supportsCrlfCpt"@[0]);
    assert("fileDiffHistories"@[0] != "enableMoreContext"@[0]);
    assert("fileDiffHistories"@[0] != "timeAtRequestSend"@[0]);
    assert("fileDiffHistories"@[0] != "lspSuggestedItems"@[0]);
    assert("contextItems"@[0] != "linterErrors"@[0]);
    assert("lspContexts"@[0] != "workspaceId"@[0]);
    assert("lspContexts"@[0] != "supportsCpt"@[0]);
    assert("lspContexts"@[0] != "codeResults"@[0]);
    assert("enableMoreContext"@[0] != "timeAtRequestSend"@[0]);
    assert("enableMoreContext"@[0] != "lspSuggestedItems"@[0]);
    assert("workspaceId"@[0] != "supportsCpt"@[0]);
    assert("workspaceId"@[0] != "codeResults"@[0]);
    assert("additionalFiles"@[0] != "filesyncUpdates"@[0]);
    assert("additionalFiles"@[0] != "supportsCrlfCpt"@[0]);
    assert("filesyncUpdates"@[0] != "supportsCrlfCpt"@[0]);
    assert("timeAtRequestSend"@[0] != "lspSuggestedItems"@[0]);
    assert("supportsCpt"@[0] != "codeResults"@[0]);
    let info = JsonView::Object(no_fields().push(("source"@, JsonView::Str("line_change"@))));
    assert(field(info, "source"@) == Some(JsonView::Str("line_change"@)));
}

/// A request holds version one, the path of the file or `untitled`, what else is known of the file,
/// the contents whole and the cursor; its detailed part is about the same file, contents and cursor,
/// and names the cursor's place by the same line and column.
pub proof fn law_request(
    request: ExternalEditPredictionRequest,
    file: Option<CurrentFile>,
    language: Option<Seq<char>>,
    contents: Seq<char>,
    cursor: Point,
    labels: Seq<Seq<char>>,
    context: EditorContext,
)
    requires
        is_request(request, file, language, contents, cursor, labels, context),
    ensures
        request.version == 1,
        file matches Some(f) ==> request.path@ == f.path@ && optional_text(request.absolute_path)
            == optional_text(f.absolute_path) && optional_text(request.workspace_root)
            == optional_text(f.workspace_root),
        file is None ==> request.path@ == "untitled"@ && request.absolute_path is None
            && request.workspace_root is None,
        optional_text(request.language) == language,
        request.contents@ == contents,
        request.cursor.line == cursor.row,
        request.cursor.column == cursor.column,
        request.cursor_request matches Some(detail) && detail@ == cursor_request_value(
            request.path@,
            optional_text(request.absolute_path),
            optional_text(request.workspace_root),
            language,
            contents,
            cursor,
            labels,
            context,
        ),
        field(request.cursor_request->0@, "currentFile"@) matches Some(current) && field(
            current,
            "cursorPosition"@,
        ) matches Some(position) && field(position, "line"@) == Some(
            JsonView::Int(request.cursor.line as int),
        ) && field(position, "column"@) == Some(JsonView::Int(request.cursor.column as int)) && field(
            current,
            "contents"@,
        ) == Some(JsonView::Str(request.contents@)),
{
    let relative = relative_path(
        current_path(file),
        current_absolute_path(file),
        current_workspace_root(file),
    );
    law_cursor_request(
        current_path(file),
        current_absolute_path(file),
        current_workspace_root(file),
        language,
        contents,
        cursor,
        labels,
        context,
    );
    law_current_file_is_sent(
        relative,
        current_workspace_root(file),
        language,
        contents,
        cursor,
        context.active_buffer_diagnostics@,
    );
}

/// Cursors in different places are sent as different places.
pub proof fn law_cursors_are_told_apart(
    relative: Seq<char>,
    workspace_root: Option<Seq<char>>,
    language: Option<Seq<char>>,
    contents: Seq<char>,
    a: Point,
    b: Point,
    diagnostics: Seq<ActiveBufferDiagnostic>,
)
    requires
        a != b,
    ensures
        field(
            current_file_value(relative, workspace_root, language, contents, a, diagnostics),
            "cursorPosition"@,
        ) != field(
            current_file_value(relative, workspace_root, language, contents, b, diagnostics),
            "cursorPosition"@,
        ),
{
    law_current_file_is_sent(relative, workspace_root, language, contents, a, diagnostics);
    law_current_file_is_sent(relative, workspace_root, language, contents, b, diagnostics);
}

/// A context can be sent just if the rows of its excerpts and of its diagnostics can.
pub proof fn law_which_contexts_fit(context: EditorContext)
    ensures
        context.fits() <==> related_files_fit(context.related_files@) && diagnostics_fit(
            context.active_buffer_diagnostics@,
        ),
{
}

/// Every excerpt of every related file reaches the server, whole and in its place: among the files
/// of the request, under the path of its file.
pub proof fn law_excerpts_reach_the_server(
    path: Seq<char>,
    absolute_path: Option<Seq<char>>,
    workspace_root: Option<Seq<char>>,
    language: Option<Seq<char>>,
    contents: Seq<char>,
    cursor: Point,
    labels: Seq<Seq<char>>,
    context: EditorContext,
    i: int,
    k: int,
)
    requires
        0 <= i < context.related_files@.len(),
        0 <= k < context.related_files@[i].excerpts@.len(),
    ensures
        field(
            cursor_request_value(
                path,
                absolute_path,
                workspace_root,
                language,
                contents,
                cursor,
                labels,
                context,
            ),
            "additionalFiles"@,
        ) matches Some(JsonView::Array(files)) && i < files.len() && field(
            files[i],
            "relativeWorkspacePath"@,
        ) == Some(JsonView::Str(context.related_files@[i].path@)) && (field(
            files[i],
            "visibleRangeContent"@,
        ) matches Some(JsonView::Array(texts)) && texts.len()
            == context.related_files@[i].excerpts@.len() && texts[k] == JsonView::Str(
            context.related_files@[i].excerpts@[k].text@,
        )),
{
    law_cursor_request(
        path,
        absolute_path,
        workspace_root,
        language,
        contents,
        cursor,
        labels,
        context,
    );
    let relative = relative_path(path, absolute_path, workspace_root);
    let related = context.related_files@.map_values(|f: RelatedFile| related_file_view(f));
    let all = files_with_open_buffers(related, context.open_buffers@, relative, workspace_root);
    law_open_buffers_add_other_files(related, context.open_buffers@, relative, workspace_root);
    assert(all.take(related.len() as int)[i] == all[i]);
    assert(all[i] == related_file_view(context.related_files@[i]));
    law_files_are_sent(all, i, k);
    assert(field(
        cursor_request_value(
            path,
            absolute_path,
            workspace_root,
            language,
            contents,
            cursor,
            labels,
            context,
        ),
        "additionalFiles"@,
    ) == Some(additional_files_value(all)));
}

} // verus!
