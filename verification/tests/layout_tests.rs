use contemporary::assets::{SearchStep, SourceSearch};
use contemporary::notification::copyright_line;
use contemporary::text_layout::{cursor_or_selection, CursorOrSelection};

fn cursor_of(r: CursorOrSelection) -> Option<(usize, usize)> {
    match r {
        CursorOrSelection::Cursor(line, offset) => Some((line, offset)),
        CursorOrSelection::Selection(_) => None,
    }
}

fn spans_of(r: CursorOrSelection) -> Option<Vec<(usize, usize, usize)>> {
    match r {
        CursorOrSelection::Selection(spans) => Some(spans),
        CursorOrSelection::Cursor(..) => None,
    }
}

#[test]
fn an_empty_selection_draws_the_cursor() {
    assert_eq!(cursor_of(cursor_or_selection(&vec![2, 2], 3, 3, 3)), Some((1, 0)));
    assert_eq!(cursor_of(cursor_or_selection(&vec![2, 2], 4, 4, 4)), Some((1, 1)));
    // every line ends before the cursor: the start of the first line
    assert_eq!(cursor_of(cursor_or_selection(&vec![2], 5, 5, 5)), Some((0, 0)));
}

#[test]
fn a_selection_draws_its_spans() {
    assert_eq!(spans_of(cursor_or_selection(&vec![2, 2], 1, 4, 4)), Some(vec![(0, 1, 4), (1, 0, 1)]));
    assert_eq!(spans_of(cursor_or_selection(&vec![2, 2], 3, 5, 3)), Some(vec![(1, 0, 2)]));
}

#[test]
fn copyright_line_of_the_about_page() {
    assert_eq!(copyright_line("Victor Tran", "2025"), "Copyright © Victor Tran 2025");
    assert_eq!(copyright_line("", ""), "Copyright ©  ");
}

#[test]
fn the_search_stops_at_the_first_source_with_data() {
    let mut search = SourceSearch::new(vec![4, 1, 7]);
    assert!(search.step(false) == SearchStep::Ask(4));
    assert!(search.step(false) == SearchStep::Ask(1));
    assert!(search.step(true) == SearchStep::Done);
    let mut search = SourceSearch::new(vec![2]);
    assert!(search.step(false) == SearchStep::Ask(2));
    assert!(search.step(false) == SearchStep::Done);
    assert!(search.step(false) == SearchStep::Done);
    let mut search = SourceSearch::new(vec![]);
    assert!(search.step(false) == SearchStep::Done);
}
