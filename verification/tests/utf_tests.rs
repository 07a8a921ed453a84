use contemporary::text_lines::{next_grapheme_boundary, previous_grapheme_boundary, split_string_lines};
use contemporary::utf::{
    byte_length, char_len_utf16, char_len_utf8, str_chars, str_eq, utf16_offset_from_utf8,
    utf8_offset_from_utf16,
};

#[test]
fn character_widths() {
    assert_eq!(char_len_utf8('a'), 1);
    assert_eq!(char_len_utf8('é'), 2);
    assert_eq!(char_len_utf8('€'), 3);
    assert_eq!(char_len_utf8('😀'), 4);
    assert_eq!(char_len_utf16('a'), 1);
    assert_eq!(char_len_utf16('€'), 1);
    assert_eq!(char_len_utf16('😀'), 2);
}

#[test]
fn byte_length_of_text() {
    assert_eq!(byte_length(""), 0);
    assert_eq!(byte_length("héllo"), 6);
    assert_eq!(byte_length("a😀"), 5);
}

#[test]
fn utf16_offsets_convert_to_bytes() {
    let s = "aé😀b";
    assert_eq!(utf8_offset_from_utf16(s, 0), 0);
    assert_eq!(utf8_offset_from_utf16(s, 1), 1);
    assert_eq!(utf8_offset_from_utf16(s, 2), 3);
    assert_eq!(utf8_offset_from_utf16(s, 4), 7);
    assert_eq!(utf8_offset_from_utf16(s, 5), 8);
    // past the end: the end of the text
    assert_eq!(utf8_offset_from_utf16(s, 50), 8);
}

#[test]
fn byte_offsets_convert_to_utf16() {
    let s = "aé😀b";
    assert_eq!(utf16_offset_from_utf8(s, 0), 0);
    assert_eq!(utf16_offset_from_utf8(s, 1), 1);
    assert_eq!(utf16_offset_from_utf8(s, 3), 2);
    assert_eq!(utf16_offset_from_utf8(s, 7), 4);
    assert_eq!(utf16_offset_from_utf8(s, 8), 5);
    assert_eq!(utf16_offset_from_utf8(s, 80), 5);
}

#[test]
fn utf16_round_trip_on_character_starts() {
    let s = "x€y😀z";
    for b in [0usize, 1, 4, 5, 9, 10] {
        assert_eq!(utf8_offset_from_utf16(s, utf16_offset_from_utf8(s, b)), b);
    }
    for u in [0usize, 1, 2, 3, 5, 6] {
        assert_eq!(utf16_offset_from_utf8(s, utf8_offset_from_utf16(s, u)), u);
    }
    // inside a surrogate pair: rounded up to the end of the character
    assert_eq!(utf8_offset_from_utf16(s, 4), 9);
}

#[test]
fn characters_and_equality() {
    assert_eq!(str_chars("añb"), vec!['a', 'ñ', 'b']);
    assert!(str_eq("abc", "abc"));
    assert!(!str_eq("abc", "abd"));
    assert!(!str_eq("ab", "abc"));
}

#[test]
fn grapheme_boundaries_skip_combining_marks() {
    // "e" and a combining acute accent form one grapheme of three bytes
    let s = "e\u{301}x";
    assert_eq!(next_grapheme_boundary(s, 0), 3);
    assert_eq!(next_grapheme_boundary(s, 3), 4);
    assert_eq!(next_grapheme_boundary(s, 4), 4);
    assert_eq!(previous_grapheme_boundary(s, 4), 3);
    assert_eq!(previous_grapheme_boundary(s, 3), 0);
    assert_eq!(previous_grapheme_boundary(s, 0), 0);
}

#[test]
fn grapheme_boundaries_of_ascii() {
    let s = "ab";
    assert_eq!(next_grapheme_boundary(s, 0), 1);
    assert_eq!(previous_grapheme_boundary(s, 2), 1);
    assert_eq!(next_grapheme_boundary("", 0), 0);
    assert_eq!(previous_grapheme_boundary("", 0), 0);
}

#[test]
fn lines_are_one_more_than_line_breaks() {
    let lines = split_string_lines("a\nbc\n\nd");
    assert_eq!(lines, vec!["a", "bc", "", "d"]);
    assert!(lines.iter().all(|l| !l.contains('\n')));
    assert_eq!(split_string_lines(""), vec![""]);
    assert_eq!(split_string_lines("x\r\ny"), vec!["x", "y"]);
}
