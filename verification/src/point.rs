//! Places in a text.
use vstd::prelude::*;

verus! {

/// A place in a text: a row, and a column in bytes, both counted from zero.
#[derive(Debug, Clone, Copy, PartialEq, Eq, Structural)]
pub struct Point {
    pub row: u32,
    pub column: u32,
}

impl Point {
    pub fn new(row: u32, column: u32) -> (r: Point)
        ensures
            r == (Point { row, column }),
    {
        Point { row, column }
    }
}

/// The part of a text from `start` up to `end`.
#[derive(Debug, Clone, Copy, PartialEq, Eq, Structural)]
pub struct PointRange {
    pub start: Point,
    pub end: Point,
}

/// A place as it is sent: a line and a column, both counted from zero.
#[derive(Debug, Clone, Copy, PartialEq, Eq, Structural)]
pub struct ExternalPosition {
    pub line: u32,
    pub column: u32,
}

impl From<Point> for ExternalPosition {
    fn from(point: Point) -> (r: ExternalPosition) {
        ExternalPosition { line: point.row, column: point.column }
    }
}

impl vstd::std_specs::convert::FromSpecImpl<Point> for ExternalPosition {
    open spec fn obeys_from_spec() -> bool {
        true
    }

    open spec fn from_spec(point: Point) -> ExternalPosition {
        ExternalPosition { line: point.row, column: point.column }
    }
}

impl From<ExternalPosition> for Point {
    fn from(position: ExternalPosition) -> (r: Point) {
        Point { row: position.line, column: position.column }
    }
}

impl vstd::std_specs::convert::FromSpecImpl<ExternalPosition> for Point {
    open spec fn obeys_from_spec() -> bool {
        true
    }

    open spec fn from_spec(position: ExternalPosition) -> Point {
        Point { row: position.line, column: position.column }
    }
}

/// A place is the same when it is sent and when it is read: its line is the row and its column
/// the column.
pub proof fn law_positions_are_points(point: Point, position: ExternalPosition)
    ensures
        <ExternalPosition as vstd::std_specs::convert::FromSpec<Point>>::from_spec(point).line
            == point.row,
        <ExternalPosition as vstd::std_specs::convert::FromSpec<Point>>::from_spec(point).column
            == point.column,
        <Point as vstd::std_specs::convert::FromSpec<ExternalPosition>>::from_spec(position).row
            == position.line,
        <Point as vstd::std_specs::convert::FromSpec<ExternalPosition>>::from_spec(position).column
            == position.column,
{
}

} // verus!
