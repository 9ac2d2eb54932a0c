//! Where a jump leads to.
#[allow(unused_imports)]
use crate::path::optional_text;
use crate::point::Point;
use crate::text::{chars_of, find, lines_of, trim, width_of};
#[allow(unused_imports)]
use crate::text::{
    byte_len, contains_text, find_text, law_trimmed, lemma_byte_len_push, lemma_byte_len_take,
    lemma_find_text, lemma_text_lines_nonempty, line_views, occurs_at, text_lines, trimmed,
};
use crate::wire::ExternalJump;
use vstd::prelude::*;

verus! {

/// How many rows above and below its position the expected text is searched for.
pub const JUMP_SEARCH_ROWS: u32 = 8;

/// `row` is a line that holds the expected text.
pub open spec fn row_matches(lines: Seq<Seq<char>>, expected: Seq<char>, row: int) -> bool {
    &&& 0 <= row <= u32::MAX
    &&& row < lines.len()
    &&& contains_text(lines[row], expected)
}

/// The matching row nearest to `target` among those at least `distance` and at most
/// [`JUMP_SEARCH_ROWS`] rows away; of two at one distance, the upper one.
pub open spec fn nearest_match(
    lines: Seq<Seq<char>>,
    expected: Seq<char>,
    target: int,
    distance: int,
) -> Option<int>
    decreases JUMP_SEARCH_ROWS - distance + 1,
{
    if distance > JUMP_SEARCH_ROWS {
        None
    } else if row_matches(lines, expected, target - distance) {
        Some(target - distance)
    } else if row_matches(lines, expected, target + distance) {
        Some(target + distance)
    } else {
        nearest_match(lines, expected, target, distance + 1)
    }
}

/// The byte of `line` at which the expected text begins.
pub open spec fn match_column(line: Seq<char>, expected: Seq<char>) -> nat {
    byte_len(line.take(find_text(line, expected)->0))
}

/// The row that the search begins at: that of `fallback`, or the last one if it lies beyond it.
pub open spec fn jump_target_row(contents: Seq<char>, fallback: Point) -> u32 {
    let last = (text_lines(contents).len() - 1) as u32;
    if fallback.row <= last {
        fallback.row
    } else {
        last
    }
}

/// Where a jump leads to in `contents`, if its position is `fallback` there: to the expected
/// text in the nearest row that holds it, else to `fallback`.
pub open spec fn jump_point(
    contents: Seq<char>,
    fallback: Point,
    expected_content: Option<Seq<char>>,
) -> Point {
    match expected_content {
        None => fallback,
        Some(content) => {
            let expected = trimmed(content);
            let lines = text_lines(contents);
            if expected.len() == 0 {
                fallback
            } else {
                match nearest_match(lines, expected, jump_target_row(contents, fallback) as int, 0) {
                    Some(row) => Point {
                        row: row as u32,
                        column: match_column(lines[row], expected) as u32,
                    },
                    None => fallback,
                }
            }
        },
    }
}

/// The search from `distance` on finds a nearest matching row.
proof fn lemma_nearest_match(
    lines: Seq<Seq<char>>,
    expected: Seq<char>,
    target: int,
    distance: int,
)
    requires
        0 <= distance,
    ensures
        match nearest_match(lines, expected, target, distance) {
            Some(row) => {
                let away = if row <= target {
                    target - row
                } else {
                    row - target
                };
                &&& row_matches(lines, expected, row)
                &&& distance <= away <= JUMP_SEARCH_ROWS
                &&& row > target ==> !row_matches(lines, expected, target - away)
                &&& forall|other: int|
                    (target - away < other <= target - distance || target + distance <= other
                        < target + away) ==> !row_matches(lines, expected, other)
            },
            None => forall|other: int|
                (target - JUMP_SEARCH_ROWS <= other <= target - distance || target + distance
                    <= other <= target + JUMP_SEARCH_ROWS) ==> !row_matches(lines, expected, other),
        },
    decreases JUMP_SEARCH_ROWS - distance + 1,
{
    if distance <= JUMP_SEARCH_ROWS && !row_matches(lines, expected, target - distance)
        && !row_matches(lines, expected, target + distance) {
        lemma_nearest_match(lines, expected, target, distance + 1);
    }
}

/// A jump with an expected text leads to the nearest row within [`JUMP_SEARCH_ROWS`] rows that
/// holds it, to the upper one of two, and there to the byte at which the text first begins;
/// where no such row holds it, to the jump's own position.
pub proof fn law_jump_leads_to_nearest_match(contents: Seq<char>, fallback: Point, content: Seq<char>)
    requires
        trimmed(content).len() > 0,
    ensures
        ({
            let lines = text_lines(contents);
            let expected = trimmed(content);
            let target = jump_target_row(contents, fallback) as int;
            let point = jump_point(contents, fallback, Some(content));
            let row = point.row as int;
            let away = if row <= target {
                target - row
            } else {
                row - target
            };
            if exists|other: int|
                target - JUMP_SEARCH_ROWS <= other <= target + JUMP_SEARCH_ROWS && row_matches(
                    lines,
                    expected,
                    other,
                ) {
                &&& row_matches(lines, expected, row)
                &&& away <= JUMP_SEARCH_ROWS
                &&& forall|other: int|
                    target - away < other < target + away ==> !row_matches(lines, expected, other)
                &&& row > target ==> !row_matches(lines, expected, target - away)
                &&& exists|start: int|
                    {
                        &&& #[trigger] occurs_at(lines[row], expected, start)
                        &&& forall|j: int| j < start ==> !occurs_at(lines[row], expected, j)
                        &&& point.column == byte_len(lines[row].take(start)) as u32
                    }
            } else {
                point == fallback
            }
        }),
{
    let lines = text_lines(contents);
    let expected = trimmed(content);
    let target = jump_target_row(contents, fallback) as int;
    lemma_nearest_match(lines, expected, target, 0);
    match nearest_match(lines, expected, target, 0) {
        Some(row) => {
            lemma_find_text(lines[row], expected);
            assert(occurs_at(lines[row], expected, find_text(lines[row], expected)->0));
            let away = if row <= target {
                target - row
            } else {
                row - target
            };
            assert(target - JUMP_SEARCH_ROWS <= row <= target + JUMP_SEARCH_ROWS);
        },
        None => {},
    }
}

/// A line that is the expected text but for white space at its ends holds the expected text, so
/// it is found by the search for the text.
pub proof fn law_equal_line_matches(lines: Seq<Seq<char>>, expected: Seq<char>, row: int)
    requires
        0 <= row < lines.len(),
        row <= u32::MAX,
        trimmed(lines[row]) == expected,
    ensures
        row_matches(lines, expected, row),
{
    law_trimmed(lines[row]);
}

/// No line has more bytes than the whole text.
proof fn lemma_line_bytes(s: Seq<char>)
    ensures
        forall|i: int|
            0 <= i < text_lines(s).len() ==> byte_len(#[trigger] text_lines(s)[i]) <= byte_len(s),
    decreases s.len(),
{
    if s.len() > 0 {
        let before = text_lines(s.drop_last());
        lemma_line_bytes(s.drop_last());
        lemma_text_lines_nonempty(s.drop_last());
        assert(s.drop_last().push(s.last()) == s);
        lemma_byte_len_push(s.drop_last(), s.last());
        lemma_byte_len_push(before.last(), s.last());
        assert forall|i: int| 0 <= i < text_lines(s).len() implies byte_len(
            #[trigger] text_lines(s)[i],
        ) <= byte_len(s) by {
            if i < before.len() - 1 || (i < before.len() && s.last() == '\n') {
                assert(text_lines(s)[i] == before[i]);
            }
        }
    }
}

/// The number of bytes of `line[..to]`.
fn bytes_before(line: &Vec<char>, to: usize) -> (r: usize)
    requires
        to <= line@.len(),
        byte_len(line@) <= usize::MAX,
    ensures
        r == byte_len(line@.take(to as int)),
{
    let mut bytes: usize = 0;
    let mut i: usize = 0;
    assert(line@.take(0) == Seq::<char>::empty());
    while i < to
        invariant
            i <= to <= line@.len(),
            byte_len(line@) <= usize::MAX,
            bytes == byte_len(line@.take(i as int)),
        decreases to - i,
    {
        proof {
            assert(line@.take(i + 1) == line@.take(i as int).push(line@[i as int]));
            lemma_byte_len_push(line@.take(i as int), line@[i as int]);
            lemma_byte_len_take(line@, i + 1);
        }
        bytes += width_of(line[i]);
        i += 1;
    }
    bytes
}

/// The place of the expected text in `row`, if that is a line that holds it.
fn point_in_row(lines: &Vec<Vec<char>>, expected: &Vec<char>, row: u32) -> (r: Option<Point>)
    requires
        forall|i: int| 0 <= i < lines@.len() ==> byte_len(#[trigger] lines@[i]@) <= usize::MAX,
    ensures
        match r {
            Some(point) => row_matches(line_views(lines@), expected@, row as int) && point == (Point {
                row,
                column: match_column(lines@[row as int]@, expected@) as u32,
            }),
            None => !row_matches(line_views(lines@), expected@, row as int),
        },
{
    let index: usize = row as usize;
    if index >= lines.len() {
        return None;
    }
    proof {
        lemma_find_text(lines@[index as int]@, expected@);
    }
    match find(&lines[index], expected) {
        Some(start) => {
            let column: usize = bytes_before(&lines[index], start);
            Some(Point::new(row, column as u32))
        },
        None => None,
    }
}

/// Where `jump` leads to in a buffer that holds `contents`, if its position is `fallback` there.
pub fn point_for_jump(contents: &str, fallback: Point, jump: &ExternalJump) -> (r: Point)
    ensures
        r == jump_point(contents@, fallback, optional_text(jump.expected_content)),
{
    let expected: Vec<char> = match &jump.expected_content {
        Some(content) => chars_of(trim(content.as_str()).as_str()),
        None => {
            return fallback;
        },
    };
    if expected.len() == 0 {
        return fallback;
    }
    // The contents, and so each line, have a number of bytes that can be counted.
    let _bytes: usize = contents.as_bytes().len();
    let lines = lines_of(&chars_of(contents));
    proof {
        lemma_line_bytes(contents@);
        assert forall|i: int| 0 <= i < lines@.len() implies byte_len(#[trigger] lines@[i]@)
            <= usize::MAX by {
            assert(line_views(lines@)[i] == lines@[i]@);
        }
        assert(line_views(lines@) == text_lines(contents@));
    }
    let last: u32 = (lines.len() - 1) as u32;
    let target: u32 = if fallback.row <= last {
        fallback.row
    } else {
        last
    };
    let mut distance: u32 = 0;
    while distance <= JUMP_SEARCH_ROWS
        invariant
            distance <= JUMP_SEARCH_ROWS + 1,
            line_views(lines@) == text_lines(contents@),
            forall|i: int| 0 <= i < lines@.len() ==> byte_len(#[trigger] lines@[i]@) <= usize::MAX,
            nearest_match(line_views(lines@), expected@, target as int, 0) == nearest_match(
                line_views(lines@),
                expected@,
                target as int,
                distance as int,
            ),
            expected@.len() > 0,
            target == jump_target_row(contents@, fallback),
            jump.expected_content is Some,
            expected@ == trimmed(jump.expected_content->0@),
        decreases JUMP_SEARCH_ROWS + 1 - distance,
    {
        if distance <= target {
            if let Some(point) = point_in_row(&lines, &expected, target - distance) {
                return point;
            }
        }
        if distance <= u32::MAX - target {
            if let Some(point) = point_in_row(&lines, &expected, target + distance) {
                return point;
            }
        }
        distance += 1;
    }
    fallback
}

/// A jump with an expected text is searched for around its own row: it leads to the nearest row
/// that holds the text, at most eight rows away, to the upper one of two, and there to the byte at
/// which the text first begins; where no such row holds it, to its own position. Its own row is
/// the last one of the text where the text has no such row.
pub proof fn law_jump_searches_around_its_row(
    contents: Seq<char>,
    fallback: Point,
    content: Seq<char>,
)
    requires
        trimmed(content).len() > 0,
        text_lines(contents).len() <= 0x1_0000_0000,
    ensures
        ({
            let lines = text_lines(contents);
            let expected = trimmed(content);
            let own = if fallback.row < lines.len() {
                fallback.row as int
            } else {
                lines.len() - 1
            };
            let point = jump_point(contents, fallback, Some(content));
            let row = point.row as int;
            let away = if row <= own {
                own - row
            } else {
                row - own
            };
            if exists|other: int|
                own - 8 <= other <= own + 8 && 0 <= other < lines.len() && contains_text(
                    #[trigger] lines[other],
                    expected,
                ) {
                &&& 0 <= row < lines.len()
                &&& contains_text(lines[row], expected)
                &&& away <= 8
                &&& forall|other: int|
                    own - away < other < own + away && 0 <= other < lines.len() ==> !contains_text(
                        #[trigger] lines[other],
                        expected,
                    )
                &&& row > own && own - away >= 0 ==> !contains_text(lines[own - away], expected)
                &&& exists|start: int|
                    {
                        &&& 0 <= start && start + expected.len() <= lines[row].len()
                        &&& #[trigger] lines[row].subrange(start, start + expected.len()) == expected
                        &&& forall|j: int|
                            0 <= j < start ==> #[trigger] lines[row].subrange(j, j + expected.len())
                                != expected
                        &&& point.column == byte_len(lines[row].take(start)) as u32
                    }
            } else {
                point == fallback
            }
        }),
{
    let lines = text_lines(contents);
    let expected = trimmed(content);
    lemma_text_lines_nonempty(contents);
    let own = if fallback.row < lines.len() {
        fallback.row as int
    } else {
        lines.len() - 1
    };
    assert(jump_target_row(contents, fallback) == own);
    lemma_nearest_match(lines, expected, own, 0);
    if exists|other: int|
        own - 8 <= other <= own + 8 && 0 <= other < lines.len() && contains_text(
            #[trigger] lines[other],
            expected,
        ) {
        let other = choose|other: int|
            own - 8 <= other <= own + 8 && 0 <= other < lines.len() && contains_text(
                #[trigger] lines[other],
                expected,
            );
        assert(row_matches(lines, expected, other));
        let row = nearest_match(lines, expected, own, 0)->0;
        let away = if row <= own {
            own - row
        } else {
            row - own
        };
        assert forall|next: int|
            own - away < next < own + away && 0 <= next < lines.len() implies !contains_text(
            #[trigger] lines[next],
            expected,
        ) by {
            assert(!row_matches(lines, expected, next));
        }
        if row > own && own - away >= 0 {
            assert(!row_matches(lines, expected, own - away));
        }
        lemma_find_text(lines[row], expected);
        let start = find_text(lines[row], expected)->0;
        assert(occurs_at(lines[row], expected, start));
        assert forall|j: int| 0 <= j < start implies #[trigger] lines[row].subrange(
            j,
            j + expected.len(),
        ) != expected by {
            assert(!occurs_at(lines[row], expected, j));
        }
    } else if let Some(row) = nearest_match(lines, expected, own, 0) {
        assert(row_matches(lines, expected, row));
        assert(contains_text(lines[row], expected));
    }
}

/// A jump without an expected text, or with one that is white space, leads to its own position.
pub proof fn law_jump_without_text(contents: Seq<char>, fallback: Point, content: Seq<char>)
    ensures
        jump_point(contents, fallback, None) == fallback,
        trimmed(content).len() == 0 ==> jump_point(contents, fallback, Some(content)) == fallback,
{
}

} // verus!
