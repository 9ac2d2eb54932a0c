use edit_prediction::jump::point_for_jump;
use edit_prediction::point::{ExternalPosition, Point};
use edit_prediction::wire::ExternalJump;

fn jump(expected_content: Option<&str>) -> ExternalJump {
    ExternalJump {
        path: "a.rs".to_string(),
        position: ExternalPosition { line: 0, column: 0 },
        expected_content: expected_content.map(|content| content.to_string()),
        should_retrigger: None,
    }
}

fn leads_to(contents: &str, row: u32, expected_content: &str) -> Point {
    point_for_jump(contents, Point::new(row, 3), &jump(Some(expected_content)))
}

#[test]
fn without_expected_text_the_position_stands() {
    let position = Point::new(1, 2);
    assert_eq!(point_for_jump("a\nb", position, &jump(None)), position);
    assert_eq!(point_for_jump("a\nb", position, &jump(Some(" \t"))), position);
}

#[test]
fn expected_text_is_found_in_the_nearest_row() {
    let contents = "x\nfoo\ny\nz\n  foo(bar)\nw";
    assert_eq!(leads_to(contents, 4, "foo"), Point::new(4, 2));
    assert_eq!(leads_to(contents, 5, " foo "), Point::new(4, 2));
    assert_eq!(leads_to(contents, 2, "foo"), Point::new(1, 0));
    assert_eq!(leads_to(contents, 3, "foo"), Point::new(4, 2));
    assert_eq!(leads_to(contents, 5000, "w"), Point::new(5, 0));
}

#[test]
fn of_two_rows_the_upper_one_is_taken() {
    assert_eq!(leads_to("foo\nx\n foo", 1, "foo"), Point::new(0, 0));
}

#[test]
fn rows_far_away_are_not_searched() {
    let far = format!("foo{}", "\n".repeat(9));
    assert_eq!(leads_to(&far, 9, "foo"), Point::new(9, 3));
    assert_eq!(leads_to(&far, 8, "foo"), Point::new(0, 0));
    let below = format!("{}foo", "\n".repeat(8));
    assert_eq!(leads_to(&below, 0, "foo"), Point::new(8, 0));
    assert_eq!(leads_to("", 0, "foo"), Point::new(0, 3));
}

#[test]
fn columns_are_bytes() {
    for line in ["éé foo", "\t\u{3000}foo", "🦀foofoo", "foo"] {
        let column = line.find("foo").unwrap() as u32;
        assert_eq!(leads_to(line, 0, "foo"), Point::new(0, column));
    }
    assert_eq!(leads_to("éé foo", 0, "foo"), Point::new(0, 5));
}

#[test]
fn a_line_that_is_the_expected_text_is_found_at_its_beginning() {
    let line = " \u{a0} foo bar \t";
    let column = (line.len() - line.trim_start().len()) as u32;
    assert_eq!(leads_to(line, 0, "foo bar"), Point::new(0, column));
}

#[test]
fn of_two_places_in_a_row_the_first_is_taken() {
    assert_eq!(leads_to("a foo foo", 0, "foo"), Point::new(0, 2));
    assert_eq!(leads_to("aaa", 0, "aa"), Point::new(0, 0));
}
