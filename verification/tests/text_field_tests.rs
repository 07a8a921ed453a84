use contemporary::text_field::{MaskMode, MousePlacement, TextField};
use contemporary::text_layout::{cursor_position, selection_spans};
use contemporary::text_lines::split_string_lines;

fn field_with(text: &str) -> TextField {
    let mut field = TextField::new();
    field.set_text(text);
    field
}

#[test]
fn new_field_is_empty() {
    let field = TextField::new();
    assert_eq!(field.text(), "");
    assert_eq!(field.selected_range(), 0..0);
    assert!(field.has_border());
    assert!(!field.allow_new_lines());
    assert!(*field.mask_mode() == MaskMode::Clear);
}

#[test]
fn set_text_resets_selection() {
    let mut field = field_with("hello");
    field.move_to(3);
    field.set_text("bye");
    assert_eq!(field.text(), "bye");
    assert_eq!(field.selected_range(), 0..0);
    assert_eq!(field.cursor_offset(), 0);
}

#[test]
fn select_all_then_copy_gives_the_whole_text() {
    let mut field = field_with("hello");
    field.select_all();
    assert_eq!(field.selected_range(), 0..5);
    assert_eq!(field.cursor_offset(), 5);
    assert_eq!(field.copy(), Some("hello".to_string()));
}

#[test]
fn copy_without_selection_gives_nothing() {
    let mut field = field_with("hello");
    field.move_to(2);
    assert_eq!(field.copy(), None);
}

#[test]
fn typing_inserts_at_the_cursor() {
    let mut field = field_with("ab");
    field.move_to(1);
    field.type_string("X");
    assert_eq!(field.text(), "aXb");
    assert_eq!(field.selected_range(), 2..2);
}

#[test]
fn typing_replaces_the_selection() {
    let mut field = field_with("hello world");
    field.move_to(0);
    field.select_to(5);
    field.type_string("bye");
    assert_eq!(field.text(), "bye world");
    assert_eq!(field.cursor_offset(), 3);
}

#[test]
fn backspace_and_delete_remove_one_character() {
    let mut field = field_with("aXb");
    field.move_to(2);
    field.backspace();
    assert_eq!(field.text(), "ab");
    assert_eq!(field.cursor_offset(), 1);
    field.delete();
    assert_eq!(field.text(), "a");
    assert_eq!(field.cursor_offset(), 1);
}

#[test]
fn backspace_at_start_and_delete_at_end_change_nothing() {
    let mut field = field_with("ab");
    field.move_to(0);
    field.backspace();
    assert_eq!(field.text(), "ab");
    field.end();
    field.delete();
    assert_eq!(field.text(), "ab");
}

#[test]
fn backspace_removes_a_whole_grapheme() {
    // "e" followed by a combining acute accent is one grapheme of 3 bytes.
    let mut field = field_with("e\u{301}x");
    assert_eq!(field.previous_boundary(3), 0);
    assert_eq!(field.next_boundary(0), 3);
    assert_eq!(field.next_boundary(3), 4);
    field.end();
    assert_eq!(field.cursor_offset(), 4);
    field.backspace();
    assert_eq!(field.text(), "e\u{301}");
    field.backspace();
    assert_eq!(field.text(), "");
}

#[test]
fn boundaries_at_the_edges() {
    let field = field_with("abc");
    assert_eq!(field.previous_boundary(0), 0);
    assert_eq!(field.next_boundary(3), 3);
    assert_eq!(field.next_boundary(10), 3);
    assert_eq!(field.previous_boundary(10), 2);
}

#[test]
fn left_and_right_move_by_grapheme() {
    let mut field = field_with("a\u{1F600}b");
    field.move_to(1);
    field.right();
    assert_eq!(field.cursor_offset(), 5);
    field.left();
    assert_eq!(field.cursor_offset(), 1);
}

#[test]
fn arrows_collapse_a_selection() {
    let mut field = field_with("hello");
    field.move_to(1);
    field.select_to(3);
    field.left();
    assert_eq!(field.selected_range(), 1..1);
    field.select_to(4);
    field.right();
    assert_eq!(field.selected_range(), 4..4);
}

#[test]
fn select_to_before_the_anchor_reverses_the_selection() {
    let mut field = field_with("hello");
    field.move_to(3);
    field.select_to(1);
    assert_eq!(field.selected_range(), 1..3);
    assert_eq!(field.cursor_offset(), 1);
    assert_eq!(field.selected_text_range(), (1..3, true));
    field.select_to(4);
    assert_eq!(field.selected_range(), 3..4);
    assert_eq!(field.cursor_offset(), 4);
}

#[test]
fn select_left_and_right_extend_the_selection() {
    let mut field = field_with("hello");
    field.move_to(2);
    field.select_right();
    assert_eq!(field.selected_range(), 2..3);
    field.select_left();
    field.select_left();
    assert_eq!(field.selected_range(), 1..2);
    assert_eq!(field.cursor_offset(), 1);
}

#[test]
fn home_and_end() {
    let mut field = field_with("hello");
    field.end();
    assert_eq!(field.selected_range(), 5..5);
    field.home();
    assert_eq!(field.selected_range(), 0..0);
}

#[test]
fn utf16_offsets() {
    // a (1 byte, 1 unit), U+1F600 (4 bytes, 2 units), b (1 byte, 1 unit)
    let field = field_with("a\u{1F600}b");
    assert_eq!(field.offset_from_utf16(0), 0);
    assert_eq!(field.offset_from_utf16(1), 1);
    assert_eq!(field.offset_from_utf16(2), 5);
    assert_eq!(field.offset_from_utf16(3), 5);
    assert_eq!(field.offset_from_utf16(4), 6);
    assert_eq!(field.offset_from_utf16(100), 6);
    assert_eq!(field.offset_to_utf16(1), 1);
    assert_eq!(field.offset_to_utf16(2), 3);
    assert_eq!(field.offset_to_utf16(5), 3);
    assert_eq!(field.offset_to_utf16(6), 4);
    assert_eq!(field.range_to_utf16(&(1..5)), 1..3);
    assert_eq!(field.range_from_utf16(&(1..3)), 1..5);
}

#[test]
fn text_for_a_utf16_range() {
    let field = field_with("a\u{1F600}b");
    let (text, actual) = field.text_for_range(1..3);
    assert_eq!(text, "\u{1F600}");
    assert_eq!(actual, 1..3);
}

#[test]
fn replace_text_in_a_utf16_range() {
    let mut field = field_with("a\u{1F600}b");
    field.replace_text_in_range(Some(1..3), "c");
    assert_eq!(field.text(), "acb");
    assert_eq!(field.selected_range(), 2..2);
    assert_eq!(field.marked_text_range(), None);
}

#[test]
fn composition_marks_the_new_text() {
    let mut field = TextField::new();
    field.replace_and_mark_text_in_range(None, "ka", Some(1..1));
    assert_eq!(field.text(), "ka");
    assert_eq!(field.marked_text_range(), Some(0..2));
    assert_eq!(field.selected_range(), 1..1);
    // The next composition step replaces the marked text.
    field.replace_and_mark_text_in_range(None, "kan", None);
    assert_eq!(field.text(), "kan");
    assert_eq!(field.marked_text_range(), Some(0..3));
    assert_eq!(field.selected_range(), 3..3);
    field.unmark_text();
    assert_eq!(field.marked_text_range(), None);
}

#[test]
fn composition_with_empty_text_unmarks() {
    let mut field = field_with("abc");
    field.move_to(1);
    field.select_to(2);
    field.replace_and_mark_text_in_range(None, "", None);
    assert_eq!(field.text(), "ac");
    assert_eq!(field.marked_text_range(), None);
    assert_eq!(field.selected_range(), 1..1);
}

#[test]
fn paste_inserts_text_only() {
    let mut field = field_with("ab");
    field.move_to(1);
    assert!(field.paste(Some("xy")));
    assert_eq!(field.text(), "axyb");
    assert_eq!(field.cursor_offset(), 3);
    assert!(!field.paste(None));
    assert_eq!(field.text(), "axyb");
}

#[test]
fn cut_takes_the_selection_out() {
    let mut field = field_with("hello");
    field.select_all();
    assert_eq!(field.cut(), Some("hello".to_string()));
    assert_eq!(field.text(), "");
    assert_eq!(field.cut(), None);
}

#[test]
fn new_line_needs_permission() {
    let mut field = field_with("ab");
    field.move_to(1);
    assert!(!field.new_line());
    assert_eq!(field.text(), "ab");
}

#[test]
fn mouse_selects_by_dragging() {
    let mut field = field_with("hello");
    field.on_mouse_down(false, 1);
    assert!(field.is_selecting());
    field.on_mouse_move(4);
    assert_eq!(field.selected_range(), 1..4);
    field.on_mouse_up();
    assert!(!field.is_selecting());
    field.on_mouse_move(0);
    assert_eq!(field.selected_range(), 1..4);
    field.on_mouse_down(true, 0);
    assert_eq!(field.selected_range(), 0..1);
}

#[test]
fn reset_empties_the_field() {
    let mut field = field_with("hello");
    field.select_all();
    field.reset();
    assert_eq!(field.text(), "");
    assert_eq!(field.selected_range(), 0..0);
}

#[test]
fn display_lines_of_text_and_placeholder() {
    let mut field = TextField::new();
    field.set_placeholder("Type here");
    let (lines, placeholder) = field.display_lines();
    assert_eq!(lines, vec!["Type here".to_string()]);
    assert!(placeholder);
    field.set_text("ab\r\nc");
    let (lines, placeholder) = field.display_lines();
    assert_eq!(lines, vec!["ab".to_string(), "c".to_string()]);
    assert!(!placeholder);
}

#[test]
fn password_mask_hides_each_byte() {
    let mut field = TextField::new();
    field.set_mask_mode(MaskMode::password_mask());
    assert!(*field.mask_mode() == MaskMode::Mask('*'));
    field.set_placeholder("Password");
    assert_eq!(field.display_lines().0, vec!["Password".to_string()]);
    field.set_text("pw\n\u{e9}");
    assert_eq!(field.display_lines().0, vec!["**".to_string(), "**".to_string()]);
}

#[test]
fn split_lines_strips_carriage_returns() {
    assert_eq!(split_string_lines("a\nb\r\n"), vec!["a", "b", ""]);
    assert_eq!(split_string_lines(""), vec![""]);
    assert_eq!(split_string_lines("\r"), vec![""]);
    assert_eq!(split_string_lines("x\r\ry"), vec!["x\r\ry"]);
}

#[test]
fn offset_for_a_position_on_a_line() {
    let field = field_with("ab\ncd");
    assert_eq!(field.offset_for_line_position(0, 1), 1);
    assert_eq!(field.offset_for_line_position(1, 1), 4);
    assert_eq!(field.offset_for_line_position(5, 0), 9);
}

#[test]
fn cursor_position_among_lines() {
    assert_eq!(cursor_position(&vec![2, 2], 0), Some((0, 0)));
    assert_eq!(cursor_position(&vec![2, 2], 2), Some((0, 2)));
    assert_eq!(cursor_position(&vec![2, 2], 3), Some((1, 0)));
    assert_eq!(cursor_position(&vec![2, 2], 4), Some((1, 1)));
    assert_eq!(cursor_position(&vec![2], 5), None);
}

#[test]
fn selection_spans_among_lines() {
    assert_eq!(selection_spans(&vec![2, 2], 1, 4), vec![(0, 1, 4), (1, 0, 1)]);
    assert_eq!(selection_spans(&vec![2, 2], 3, 5), vec![(1, 0, 2)]);
    assert_eq!(selection_spans(&vec![2, 2], 0, 0), vec![(0, 0, 0)]);
}

#[test]
fn index_under_the_mouse() {
    let field = field_with("ab\ncde");
    assert_eq!(field.index_for_mouse_position(MousePlacement::NotLaidOut), 0);
    assert_eq!(field.index_for_mouse_position(MousePlacement::Above), 0);
    assert_eq!(field.index_for_mouse_position(MousePlacement::Below), 6);
    assert_eq!(field.index_for_mouse_position(MousePlacement::OnLine { line_index: 1, index_in_line: 2 }), 5);
    assert_eq!(field.index_for_mouse_position(MousePlacement::OnLine { line_index: 0, index_in_line: 1 }), 1);
    let empty = TextField::new();
    assert_eq!(empty.index_for_mouse_position(MousePlacement::Below), 0);
    assert_eq!(empty.index_for_mouse_position(MousePlacement::OnLine { line_index: 0, index_in_line: 3 }), 0);
}

#[test]
fn a_reversed_range_keeps_the_text_before_its_start_and_after_its_end() {
    let mut field = field_with("abcd");
    field.replace_text_in_range(Some(3..1), "x");
    assert_eq!(field.text(), "abcxbcd");
    assert_eq!(field.selected_range(), 4..4);
    let mut field = field_with("abcd");
    field.replace_and_mark_text_in_range(Some(2..1), "yz", None);
    assert_eq!(field.text(), "abyzbcd");
    assert_eq!(field.marked_text_range(), Some(2..4));
    assert_eq!(field.selected_range(), 4..4);
}
