//! The editing state of a text field: its text, selection, marked (composing)
//! range and the operations of the keyboard, mouse and input method on them.
//! Offsets into the text are byte offsets, as `str` has them; the input
//! method speaks in UTF-16 offsets.
use crate::text_lines::{
    split_string_lines, str_views, string_lines, first_offset_after, grapheme_offsets_of, last_offset_before, next_grapheme_boundary,
    previous_grapheme_boundary,
};
use crate::utf::{
    utf8_width, string_from_chars, lemma_byte_len_concat, byte_len, byte_length, is_char_start, lemma_byte_len_take_mono, lemma_byte_len_take_injective,
    lemma_utf16_offset_is_char_start, slice_chars, utf16_offset_from_utf8, utf16_offset_of_utf8,
    utf8_offset_from_utf16, utf8_offset_of_utf16,
};
use std::ops::Range;
use vstd::prelude::*;

verus! {

/// How the text of a field is shown.
#[derive(Clone, Copy, PartialEq, Eq, Structural)]
pub enum MaskMode {
    /// The text is shown as it is.
    Clear,
    /// Each byte of the text is shown as this character.
    Mask(char),
}

impl MaskMode {
    /// The mask used for password fields.
    pub fn password_mask() -> (m: Self)
        ensures
            m == MaskMode::Mask('*'),
    {
        MaskMode::Mask('*')
    }
}

impl Default for MaskMode {
    fn default() -> (m: Self)
        ensures
            m == MaskMode::Clear,
    {
        MaskMode::Clear
    }
}

/// Sent when Enter is pressed in a text field.
#[derive(Clone, Copy)]
pub struct EnterPressEvent;

/// Sent when the text of a text field changes.
#[derive(Clone, Copy)]
pub struct TextChangedEvent;

/// Where the characters of `s` start, counted from 0: the character index
/// whose start lies at byte `b`.
pub open spec fn char_index_at(s: Seq<char>, b: int) -> int {
    choose|k: int| 0 <= k <= s.len() && byte_len(s.take(k)) == b
}

/// The characters of `s` before byte `b`.
pub open spec fn text_before(s: Seq<char>, b: int) -> Seq<char> {
    s.take(char_index_at(s, b))
}

/// The characters of `s` from byte `b` on.
pub open spec fn text_after(s: Seq<char>, b: int) -> Seq<char> {
    s.skip(char_index_at(s, b))
}

/// The characters of `s` between bytes `a` and `b`.
pub open spec fn text_between(s: Seq<char>, a: int, b: int) -> Seq<char> {
    s.subrange(char_index_at(s, a), char_index_at(s, b))
}

/// A byte range of `s` that is ordered and whose ends start characters.
pub open spec fn valid_range(s: Seq<char>, r: Range<usize>) -> bool {
    r.start <= r.end && is_char_start(s, r.start as int) && is_char_start(s, r.end as int)
}

/// Both ends of a byte range of `s`, in whatever order, start characters.
pub open spec fn ends_start_chars(s: Seq<char>, r: Range<usize>) -> bool {
    is_char_start(s, r.start as int) && is_char_start(s, r.end as int)
}

/// The byte range of `s` for a UTF-16 range.
pub open spec fn range_from_utf16_spec(s: Seq<char>, r: Range<usize>) -> Range<usize> {
    Range {
        start: utf8_offset_of_utf16(s, r.start as int) as usize,
        end: utf8_offset_of_utf16(s, r.end as int) as usize,
    }
}

/// The UTF-16 range of `s` for a byte range.
pub open spec fn range_to_utf16_spec(s: Seq<char>, r: Range<usize>) -> Range<usize> {
    Range {
        start: utf16_offset_of_utf8(s, r.start as int) as usize,
        end: utf16_offset_of_utf8(s, r.end as int) as usize,
    }
}

/// A line as a field shows it: each byte of it as the mask character, where
/// the field masks its text.
pub open spec fn masked_line(mask_mode: MaskMode, line: Seq<char>) -> Seq<char> {
    match mask_mode {
        MaskMode::Clear => line,
        MaskMode::Mask(c) => Seq::new(byte_len(line), |_i: int| c),
    }
}

/// The lines a field shows: the placeholder's where the text is empty (never
/// masked), else the text's, masked as the field says.
pub open spec fn display_lines_spec(v: TextFieldView) -> Seq<Seq<char>> {
    if v.text.len() == 0 {
        string_lines(v.placeholder)
    } else {
        string_lines(v.text).map_values(|line: Seq<char>| masked_line(v.mask_mode, line))
    }
}

/// The total length in bytes of the first `n` lines.
pub open spec fn lines_byte_len(lines: Seq<Seq<char>>, n: int) -> int
    decreases n,
{
    if n <= 0 || lines.len() == 0 {
        0
    } else if n > lines.len() {
        lines_byte_len(lines, lines.len() as int)
    } else {
        lines_byte_len(lines, n - 1) + byte_len(lines[n - 1])
    }
}

/// The byte offset in the text of a position on a display line: the offset
/// within the line, plus one separator for each line before, plus the lengths
/// of the lines before.
pub open spec fn offset_for_line_position_spec(
    text: Seq<char>,
    line_index: int,
    index_in_line: int,
) -> int {
    index_in_line + line_index + lines_byte_len(string_lines(text), line_index)
}

/// The views of a sequence of strings.
pub open spec fn string_views(v: Seq<String>) -> Seq<Seq<char>> {
    v.map_values(|s: String| s@)
}

/// `count` copies of `c`.
fn repeat_char(c: char, count: usize) -> (s: String)
    ensures
        s@ == Seq::new(count as nat, |_i: int| c),
{
    let mut chars: Vec<char> = Vec::new();
    let mut i: usize = 0;
    while i < count
        invariant
            i <= count,
            chars@ == Seq::new(i as nat, |_i: int| c),
        decreases count - i,
    {
        chars.push(c);
        i = i + 1;
        proof {
            assert(chars@ =~= Seq::new(i as nat, |_i: int| c));
        }
    }
    string_from_chars(&chars)
}

/// What a text field holds.
pub struct TextFieldView {
    pub text: Seq<char>,
    pub placeholder: Seq<char>,
    pub marked_range: Option<Range<usize>>,
    pub selected_range: Range<usize>,
    pub selection_reversed: bool,
    pub is_selecting: bool,
    pub has_border: bool,
    pub allow_new_lines: bool,
    pub mask_mode: MaskMode,
}

impl TextFieldView {
    /// The field as `TextField::new` makes it.
    pub open spec fn initial() -> TextFieldView {
        TextFieldView {
            text: Seq::empty(),
            placeholder: Seq::empty(),
            marked_range: None,
            selected_range: Range { start: 0, end: 0 },
            selection_reversed: false,
            is_selecting: false,
            has_border: true,
            allow_new_lines: false,
            mask_mode: MaskMode::Clear,
        }
    }

    /// The field after `reset`: empty text, no selection, nothing marked.
    pub open spec fn after_reset(self) -> TextFieldView {
        TextFieldView {
            text: Seq::empty(),
            marked_range: None,
            selected_range: Range { start: 0, end: 0 },
            selection_reversed: false,
            is_selecting: false,
            ..self
        }
    }

    /// Where the cursor is: the end of the selection that moves.
    pub open spec fn cursor(self) -> usize {
        if self.selection_reversed {
            self.selected_range.start
        } else {
            self.selected_range.end
        }
    }

    /// The end of the selection that stays while the selection is extended.
    pub open spec fn anchor(self) -> usize {
        if self.selection_reversed {
            self.selected_range.end
        } else {
            self.selected_range.start
        }
    }

    /// The field after the cursor is placed at `offset` with nothing selected.
    pub open spec fn after_move_to(self, offset: usize) -> TextFieldView {
        TextFieldView { selected_range: Range { start: offset, end: offset }, ..self }
    }

    /// The field after the moving end of the selection is taken to `offset`;
    /// where it passes the other end, the two swap and the direction flips.
    pub open spec fn after_select_to(self, offset: usize) -> TextFieldView {
        let r = if self.selection_reversed {
            Range { start: offset, end: self.selected_range.end }
        } else {
            Range { start: self.selected_range.start, end: offset }
        };
        if r.end < r.start {
            TextFieldView {
                selected_range: Range { start: r.end, end: r.start },
                selection_reversed: !self.selection_reversed,
                ..self
            }
        } else {
            TextFieldView { selected_range: r, ..self }
        }
    }

    /// The byte range that an edit replaces: the given UTF-16 range, else the
    /// marked range, else the selection.
    pub open spec fn edit_range(self, range_utf16: Option<Range<usize>>) -> Range<usize> {
        match range_utf16 {
            Some(r) => range_from_utf16_spec(self.text, r),
            None => match self.marked_range {
                Some(m) => m,
                None => self.selected_range,
            },
        }
    }

    /// An edit of that range can be made: its ends start characters. They
    /// may come in either order: the edit keeps the text before the start and
    /// the text after the end.
    pub open spec fn can_edit(self, range_utf16: Option<Range<usize>>) -> bool {
        ends_start_chars(self.text, self.edit_range(range_utf16))
    }

    /// The text after `range` is replaced by `new_text`.
    pub open spec fn replaced_text(self, range: Range<usize>, new_text: Seq<char>) -> Seq<char> {
        text_before(self.text, range.start as int) + new_text + text_after(
            self.text,
            range.end as int,
        )
    }

    /// The field after `replace_text_in_range`: the range replaced, the cursor
    /// after the new text, nothing marked.
    pub open spec fn after_replace(
        self,
        range_utf16: Option<Range<usize>>,
        new_text: Seq<char>,
    ) -> TextFieldView {
        let range = self.edit_range(range_utf16);
        let cursor = (range.start + byte_len(new_text)) as usize;
        TextFieldView {
            text: self.replaced_text(range, new_text),
            selected_range: Range { start: cursor, end: cursor },
            marked_range: None,
            ..self
        }
    }

    /// The selection before a deletion by Backspace: where nothing is
    /// selected, from the previous grapheme boundary to the cursor.
    pub open spec fn backspace_selection(self) -> TextFieldView {
        if !(self.selected_range.start < self.selected_range.end) {
            self.after_select_to(
                last_offset_before(grapheme_offsets_of(self.text), self.cursor() as int) as usize,
            )
        } else {
            self
        }
    }

    /// The selection before a deletion by Delete: where nothing is selected,
    /// from the cursor to the next grapheme boundary.
    pub open spec fn delete_selection(self) -> TextFieldView {
        if !(self.selected_range.start < self.selected_range.end) {
            self.after_select_to(
                first_offset_after(
                    grapheme_offsets_of(self.text),
                    self.cursor() as int,
                    byte_len(self.text) as int,
                ) as usize,
            )
        } else {
            self
        }
    }
}

/// The editing state of a text field.
pub struct TextField {
    text: String,
    placeholder: String,
    marked_range: Option<Range<usize>>,
    selected_range: Range<usize>,
    selection_reversed: bool,
    is_selecting: bool,
    has_border: bool,
    allow_new_lines: bool,
    mask_mode: MaskMode,
}

impl View for TextField {
    type V = TextFieldView;

    closed spec fn view(&self) -> TextFieldView {
        TextFieldView {
            text: self.text@,
            placeholder: self.placeholder@,
            marked_range: self.marked_range,
            selected_range: self.selected_range,
            selection_reversed: self.selection_reversed,
            is_selecting: self.is_selecting,
            has_border: self.has_border,
            allow_new_lines: self.allow_new_lines,
            mask_mode: self.mask_mode,
        }
    }
}

pub proof fn lemma_char_index_at(s: Seq<char>, b: int)
    requires
        is_char_start(s, b),
    ensures
        0 <= char_index_at(s, b) <= s.len(),
        byte_len(s.take(char_index_at(s, b))) == b,
        0 <= b <= byte_len(s),
{
    let k = choose|k: int| 0 <= k <= s.len() && b == byte_len(#[trigger] s.take(k));
    lemma_byte_len_take_mono(s, k, s.len() as int);
    assert(s.take(s.len() as int) =~= s);
}

pub proof fn lemma_valid_range_indices(s: Seq<char>, r: Range<usize>)
    requires
        valid_range(s, r),
    ensures
        0 <= char_index_at(s, r.start as int) <= char_index_at(s, r.end as int) <= s.len(),
        r.end <= byte_len(s),
{
    lemma_char_index_at(s, r.start as int);
    lemma_char_index_at(s, r.end as int);
    let i = char_index_at(s, r.start as int);
    let j = char_index_at(s, r.end as int);
    if j < i {
        lemma_byte_len_take_mono(s, j, i);
    }
}

pub proof fn lemma_char_start_of_take(s: Seq<char>, k: int)
    requires
        0 <= k <= s.len(),
    ensures
        is_char_start(s, byte_len(s.take(k)) as int),
        char_index_at(s, byte_len(s.take(k)) as int) == k,
{
    assert(0 <= k <= s.len() && byte_len(s.take(k)) as int == byte_len(s.take(k)));
    lemma_char_index_at(s, byte_len(s.take(k)) as int);
    lemma_byte_len_take_injective(s, k, char_index_at(s, byte_len(s.take(k)) as int));
}

pub proof fn lemma_lines_byte_len_mono(lines: Seq<Seq<char>>, n: int)
    ensures
        forall|k: int| 0 <= k <= n ==> lines_byte_len(lines, k) <= lines_byte_len(lines, n),
        forall|k: int| #![trigger lines_byte_len(lines, k)] k <= n ==> lines_byte_len(lines, k) <= lines_byte_len(lines, n),
    decreases n,
{
    if n > 0 && lines.len() > 0 {
        if n > lines.len() {
            lemma_lines_byte_len_mono(lines, lines.len() as int);
            assert forall|k: int| k <= n implies lines_byte_len(lines, k) <= lines_byte_len(lines, n) by {
                if k > lines.len() {
                }
            }
        } else {
            lemma_lines_byte_len_mono(lines, n - 1);
        }
    }
}

pub proof fn lemma_lines_byte_len_saturates(lines: Seq<Seq<char>>, i: int, n: int)
    requires
        0 <= lines.len() <= i <= n,
    ensures
        lines_byte_len(lines, i) == lines_byte_len(lines, n),
    decreases n,
{
    if n > i {
        lemma_lines_byte_len_saturates(lines, i, n - 1);
    }
}

/// After a replacement the text reads back as written: the text before the
/// replaced range is as it was, then comes the new text up to the cursor,
/// then the text that followed the range; the cursor starts a character and
/// nothing is selected.
pub proof fn law_replace_reads_back(
    v: TextFieldView,
    range_utf16: Option<Range<usize>>,
    new_text: Seq<char>,
)
    requires
        v.can_edit(range_utf16),
        v.edit_range(range_utf16).start + byte_len(new_text) <= usize::MAX,
    ensures
        ({
            let range = v.edit_range(range_utf16);
            let w = v.after_replace(range_utf16, new_text);
            &&& w.cursor() == range.start + byte_len(new_text)
            &&& valid_range(w.text, w.selected_range)
            &&& w.marked_range is None
            &&& text_before(w.text, range.start as int) == text_before(v.text, range.start as int)
            &&& text_between(w.text, range.start as int, w.cursor() as int) == new_text
            &&& text_after(w.text, w.cursor() as int) == text_after(v.text, range.end as int)
        }),
{
    let range = v.edit_range(range_utf16);
    let s = v.text;
    lemma_char_index_at(s, range.start as int);
    lemma_char_index_at(s, range.end as int);
    let b = text_before(s, range.start as int);
    let a = text_after(s, range.end as int);
    let t = b + new_text + a;
    let w = v.after_replace(range_utf16, new_text);
    assert(w.text == t);
    let i = b.len() as int;
    let j = (b.len() + new_text.len()) as int;
    assert(t.take(i) =~= b);
    assert(t.take(j) =~= b + new_text);
    assert(t.skip(j) =~= a);
    assert(t.subrange(i, j) =~= new_text);
    lemma_byte_len_concat(b, new_text);
    lemma_char_start_of_take(t, i);
    lemma_char_start_of_take(t, j);
}

/// The characters of `text` between two character starts.
fn slice_bytes<'a>(text: &'a str, start: usize, end: usize) -> (r: &'a str)
    requires
        valid_range(text@, Range { start, end }),
    ensures
        r@ == text_between(text@, start as int, end as int),
{
    proof {
        lemma_valid_range_indices(text@, Range { start, end });
        lemma_char_index_at(text@, start as int);
        lemma_char_index_at(text@, end as int);
    }
    slice_chars(
        text,
        start,
        end,
        Ghost(char_index_at(text@, start as int)),
        Ghost(char_index_at(text@, end as int)),
    )
}

impl TextField {
    /// An empty field with a border.
    pub fn new() -> (field: Self)
        ensures
            field@ == TextFieldView::initial(),
    {
        TextField {
            text: String::new(),
            placeholder: String::new(),
            marked_range: None,
            selected_range: Range { start: 0, end: 0 },
            selection_reversed: false,
            is_selecting: false,
            has_border: true,
            allow_new_lines: false,
            mask_mode: MaskMode::Clear,
        }
    }

    pub fn set_placeholder(&mut self, placeholder: &str)
        ensures
            final(self)@ == (TextFieldView { placeholder: placeholder@, ..old(self)@ }),
    {
        self.placeholder = placeholder.to_owned();
    }

    pub fn placeholder(&self) -> (r: &str)
        ensures
            r@ == self@.placeholder,
    {
        self.placeholder.as_str()
    }

    /// Replaces the whole text and resets the selection.
    pub fn set_text(&mut self, text: &str)
        ensures
            final(self)@ == (TextFieldView { text: text@, ..old(self)@.after_reset() }),
    {
        self.reset();
        self.text = text.to_owned();
    }

    pub fn text(&self) -> (r: &str)
        ensures
            r@ == self@.text,
    {
        self.text.as_str()
    }

    pub fn set_has_border(&mut self, has_border: bool)
        ensures
            final(self)@ == (TextFieldView { has_border, ..old(self)@ }),
    {
        self.has_border = has_border;
    }

    pub fn has_border(&self) -> (r: bool)
        ensures
            r == self@.has_border,
    {
        self.has_border
    }

    pub fn set_mask_mode(&mut self, mask_mode: MaskMode)
        ensures
            final(self)@ == (TextFieldView { mask_mode, ..old(self)@ }),
    {
        self.mask_mode = mask_mode;
    }

    pub fn mask_mode(&self) -> (r: &MaskMode)
        ensures
            *r == self@.mask_mode,
    {
        &self.mask_mode
    }

    pub fn allow_new_lines(&self) -> (r: bool)
        ensures
            r == self@.allow_new_lines,
    {
        self.allow_new_lines
    }

    pub fn selected_range(&self) -> (r: Range<usize>)
        ensures
            r == self@.selected_range,
    {
        Range { start: self.selected_range.start, end: self.selected_range.end }
    }

    pub fn is_selecting(&self) -> (r: bool)
        ensures
            r == self@.is_selecting,
    {
        self.is_selecting
    }

    /// Empties the field and clears its selection and marked range.
    pub fn reset(&mut self)
        ensures
            final(self)@ == old(self)@.after_reset(),
    {
        self.text = String::new();
        self.selected_range = Range { start: 0, end: 0 };
        self.selection_reversed = false;
        self.marked_range = None;
        self.is_selecting = false;
    }

    /// The byte offset for a UTF-16 offset.
    pub fn offset_from_utf16(&self, offset: usize) -> (r: usize)
        ensures
            r == utf8_offset_of_utf16(self@.text, offset as int),
            is_char_start(self@.text, r as int),
    {
        proof {
            let k = lemma_utf16_offset_is_char_start(self@.text, offset as int);
        }
        utf8_offset_from_utf16(self.text.as_str(), offset)
    }

    /// The UTF-16 offset for a byte offset.
    pub fn offset_to_utf16(&self, offset: usize) -> (r: usize)
        ensures
            r == utf16_offset_of_utf8(self@.text, offset as int),
    {
        utf16_offset_from_utf8(self.text.as_str(), offset)
    }

    pub fn range_to_utf16(&self, range: &Range<usize>) -> (r: Range<usize>)
        ensures
            r == range_to_utf16_spec(self@.text, *range),
    {
        Range { start: self.offset_to_utf16(range.start), end: self.offset_to_utf16(range.end) }
    }

    pub fn range_from_utf16(&self, range_utf16: &Range<usize>) -> (r: Range<usize>)
        ensures
            r == range_from_utf16_spec(self@.text, *range_utf16),
            r.start == utf8_offset_of_utf16(self@.text, range_utf16.start as int),
            r.end == utf8_offset_of_utf16(self@.text, range_utf16.end as int),
            is_char_start(self@.text, r.start as int),
            is_char_start(self@.text, r.end as int),
    {
        Range {
            start: self.offset_from_utf16(range_utf16.start),
            end: self.offset_from_utf16(range_utf16.end),
        }
    }

    /// Places the cursor at `offset` with nothing selected.
    pub fn move_to(&mut self, offset: usize)
        ensures
            final(self)@ == old(self)@.after_move_to(offset),
    {
        self.selected_range = Range { start: offset, end: offset };
    }

    /// The byte offset of the cursor: the end of the selection that moves.
    pub fn cursor_offset(&self) -> (r: usize)
        ensures
            r == self@.cursor(),
    {
        if self.selection_reversed {
            self.selected_range.start
        } else {
            self.selected_range.end
        }
    }

    /// Takes the moving end of the selection to `offset`. The cursor lands
    /// at `offset`, the other end stays, and the range stays ordered.
    pub fn select_to(&mut self, offset: usize)
        ensures
            final(self)@ == old(self)@.after_select_to(offset),
            old(self)@.selected_range.start <= old(self)@.selected_range.end ==> {
                &&& final(self)@.cursor() == offset
                &&& final(self)@.anchor() == old(self)@.anchor()
                &&& final(self)@.selected_range.start <= final(self)@.selected_range.end
            },
    {
        if self.selection_reversed {
            self.selected_range.start = offset;
        } else {
            self.selected_range.end = offset;
        }
        if self.selected_range.end < self.selected_range.start {
            self.selection_reversed = !self.selection_reversed;
            self.selected_range = Range {
                start: self.selected_range.end,
                end: self.selected_range.start,
            };
        }
    }

    /// The grapheme boundary before `offset`, or 0.
    pub fn previous_boundary(&self, offset: usize) -> (r: usize)
        ensures
            r == last_offset_before(grapheme_offsets_of(self@.text), offset as int),
            is_char_start(self@.text, r as int),
            r <= offset,
            offset > 0 ==> r < offset,
    {
        previous_grapheme_boundary(self.text.as_str(), offset)
    }

    /// The grapheme boundary after `offset`, or the end of the text.
    pub fn next_boundary(&self, offset: usize) -> (r: usize)
        ensures
            r == first_offset_after(
                grapheme_offsets_of(self@.text),
                offset as int,
                byte_len(self@.text) as int,
            ),
            is_char_start(self@.text, r as int),
            r <= byte_len(self@.text),
            offset <= byte_len(self@.text) ==> offset <= r,
            offset < byte_len(self@.text) ==> offset < r,
    {
        next_grapheme_boundary(self.text.as_str(), offset)
    }

    /// A press of the mouse at byte `index`: with Shift the selection is
    /// extended to it, otherwise the cursor is placed there; a drag starts.
    pub fn on_mouse_down(&mut self, shift: bool, index: usize)
        ensures
            final(self)@ == (if shift {
                old(self)@.after_select_to(index)
            } else {
                old(self)@.after_move_to(index)
            }).with_selecting(true),
    {
        self.is_selecting = true;
        if shift {
            self.select_to(index);
        } else {
            self.move_to(index);
        }
    }

    /// A release of the mouse ends the drag.
    pub fn on_mouse_up(&mut self)
        ensures
            final(self)@ == old(self)@.with_selecting(false),
    {
        self.is_selecting = false;
    }

    /// A move of the mouse to byte `index` extends the selection while a
    /// drag is on.
    pub fn on_mouse_move(&mut self, index: usize)
        ensures
            final(self)@ == (if old(self)@.is_selecting {
                old(self)@.after_select_to(index)
            } else {
                old(self)@
            }),
    {
        if self.is_selecting {
            self.select_to(index);
        }
    }

    /// The byte range that an edit replaces.
    fn edit_range(&self, range_utf16: &Option<Range<usize>>) -> (r: Range<usize>)
        ensures
            r == self@.edit_range(*range_utf16),
    {
        match range_utf16 {
            Some(r) => self.range_from_utf16(r),
            None => match &self.marked_range {
                Some(m) => Range { start: m.start, end: m.end },
                None => Range { start: self.selected_range.start, end: self.selected_range.end },
            },
        }
    }

    /// The text with `range` replaced by `new_text`.
    fn replaced_text(&self, range: &Range<usize>, new_text: &str) -> (r: String)
        requires
            ends_start_chars(self@.text, *range),
        ensures
            r@ == self@.replaced_text(*range, new_text@),
    {
        let t = self.text.as_str();
        let len = byte_length(t);
        let ghost s = t@;
        proof {
            lemma_char_index_at(s, range.start as int);
            lemma_char_index_at(s, range.end as int);
            assert(s.take(0) =~= Seq::<char>::empty());
            assert(s.take(s.len() as int) =~= s);
            lemma_char_start_of_take(s, 0);
            lemma_char_start_of_take(s, s.len() as int);
        }
        let before = slice_bytes(t, 0, range.start);
        let after = slice_bytes(t, range.end, len);
        proof {
            assert(before@ =~= text_before(s, range.start as int));
            assert(after@ =~= text_after(s, range.end as int));
        }
        before.to_owned().concat(new_text).concat(after)
    }

    /// Replaces the edit range (the given UTF-16 range, else the marked
    /// range, else the selection) by `new_text`, puts the cursor after it and
    /// unmarks the text.
    pub fn replace_text_in_range(&mut self, range_utf16: Option<Range<usize>>, new_text: &str)
        requires
            old(self)@.can_edit(range_utf16),
            old(self)@.edit_range(range_utf16).start + byte_len(new_text@) <= usize::MAX,
        ensures
            final(self)@ == old(self)@.after_replace(range_utf16, new_text@),
            valid_range(final(self)@.text, final(self)@.selected_range),
    {
        proof {
            law_replace_reads_back(old(self)@, range_utf16, new_text@);
        }
        let range = self.edit_range(&range_utf16);
        let text = self.replaced_text(&range, new_text);
        let n = byte_length(new_text);
        self.text = text;
        self.selected_range = Range { start: range.start + n, end: range.start + n };
        self.marked_range = None;
    }

    /// Types `text` at the cursor, over the marked text or the selection.
    pub fn type_string(&mut self, text: &str)
        requires
            old(self)@.can_edit(None),
            old(self)@.edit_range(None).start + byte_len(text@) <= usize::MAX,
        ensures
            final(self)@ == old(self)@.after_replace(None, text@),
            valid_range(final(self)@.text, final(self)@.selected_range),
    {
        self.replace_text_in_range(None, text);
    }

    /// The lines the field shows, and whether they are the placeholder's
    /// (which is drawn in the disabled colour).
    pub fn display_lines(&self) -> (r: (Vec<String>, bool))
        ensures
            string_views(r.0@) == display_lines_spec(self@),
            r.1 == (self@.text.len() == 0),
    {
        let is_placeholder = self.text.as_str().is_empty();
        let source = if is_placeholder {
            self.placeholder.as_str()
        } else {
            self.text.as_str()
        };
        let lines = split_string_lines(source);
        let mut out: Vec<String> = Vec::new();
        let mut i: usize = 0;
        while i < lines.len()
            invariant
                i <= lines@.len(),
                str_views(lines@) == string_lines(source@),
                source@ == if is_placeholder { self@.placeholder } else { self@.text },
                is_placeholder == (self@.text.len() == 0),
                string_views(out@) == str_views(lines@).take(i as int).map_values(
                    |line: Seq<char>|
                        if is_placeholder { line } else { masked_line(self@.mask_mode, line) },
                ),
            decreases lines@.len() - i,
        {
            let line = lines[i];
            proof {
                assert(str_views(lines@)[i as int] == line@);
            }
            let shown = match self.mask_mode {
                MaskMode::Mask(c) => {
                    if is_placeholder {
                        line.to_owned()
                    } else {
                        let n = byte_length(line);
                        repeat_char(c, n)
                    }
                },
                MaskMode::Clear => line.to_owned(),
            };
            let ghost before = out@;
            out.push(shown);
            proof {
                assert(str_views(lines@).take(i + 1) =~= str_views(lines@).take(i as int).push(line@));
                assert(string_views(out@) =~= string_views(before).push(shown@));
            }
            i = i + 1;
        }
        proof {
            assert(str_views(lines@).take(lines@.len() as int) =~= str_views(lines@));
            if is_placeholder {
                assert(string_views(out@) =~= string_lines(self@.placeholder));
            }
        }
        (out, is_placeholder)
    }

    /// The byte offset in the text of a position on a display line, as the
    /// mouse finds it: `index_in_line` bytes into line `line_index`.
    pub fn offset_for_line_position(&self, line_index: usize, index_in_line: usize) -> (r: usize)
        requires
            offset_for_line_position_spec(self@.text, line_index as int, index_in_line as int)
                <= usize::MAX,
        ensures
            r == offset_for_line_position_spec(self@.text, line_index as int, index_in_line as int),
    {
        let lines = split_string_lines(self.text.as_str());
        let ghost ls = str_views(lines@);
        let mut sum: usize = 0;
        let mut i: usize = 0;
        proof {
            lemma_lines_byte_len_mono(ls, line_index as int);
        }
        while i < line_index && i < lines.len()
            invariant
                ls == str_views(lines@),
                ls == string_lines(self@.text),
                i <= line_index,
                i <= ls.len(),
                sum == lines_byte_len(ls, i as int),
                lines_byte_len(ls, i as int) <= lines_byte_len(ls, line_index as int),
                index_in_line + line_index + lines_byte_len(ls, line_index as int) <= usize::MAX,
                forall|k: int| i <= k <= line_index ==> lines_byte_len(ls, k) <= lines_byte_len(ls, line_index as int),
            decreases line_index - i,
        {
            let n = byte_length(lines[i]);
            proof {
                assert(ls[i as int] == lines@[i as int]@);
                assert(lines_byte_len(ls, i + 1) == lines_byte_len(ls, i as int) + byte_len(ls[i as int]));
            }
            sum = sum + n;
            i = i + 1;
        }
        proof {
            if i < line_index {
                lemma_lines_byte_len_saturates(ls, i as int, line_index as int);
            }
        }
        index_in_line + line_index + sum
    }

    /// The byte offset in the text under the mouse: 0 for an empty text,
    /// before the text is laid out or above it, the end of the text below it,
    /// and otherwise the offset of the position on its line.
    pub fn index_for_mouse_position(&self, placement: MousePlacement) -> (r: usize)
        requires
            placement matches MousePlacement::OnLine { line_index, index_in_line }
                ==> offset_for_line_position_spec(self@.text, line_index as int, index_in_line as int)
                <= usize::MAX,
        ensures
            r == if self@.text.len() == 0 {
                0
            } else {
                match placement {
                    MousePlacement::NotLaidOut | MousePlacement::Above => 0,
                    MousePlacement::Below => byte_len(self@.text) as int,
                    MousePlacement::OnLine { line_index, index_in_line } => offset_for_line_position_spec(
                        self@.text,
                        line_index as int,
                        index_in_line as int,
                    ),
                }
            },
    {
        if self.text.as_str().is_empty() {
            return 0;
        }
        match placement {
            MousePlacement::NotLaidOut | MousePlacement::Above => 0,
            MousePlacement::Below => byte_length(self.text.as_str()),
            MousePlacement::OnLine { line_index, index_in_line } => self.offset_for_line_position(
                line_index,
                index_in_line,
            ),
        }
    }

    /// Shift+Enter: inserts a line break where new lines are allowed.
    /// Answers whether the text changed.
    pub fn new_line(&mut self) -> (changed: bool)
        requires
            old(self)@.allow_new_lines ==> old(self)@.can_edit(None),
            old(self)@.allow_new_lines ==> old(self)@.edit_range(None).start + 1 <= usize::MAX,
        ensures
            changed == old(self)@.allow_new_lines,
            final(self)@ == if changed {
                old(self)@.after_replace(None, seq!['\n'])
            } else {
                old(self)@
            },
    {
        if self.allow_new_lines {
            proof {
                reveal_strlit("\n");
                assert("\n"@ =~= seq!['\n']);
                assert(byte_len(seq!['\n']) == 1) by {
                    reveal_with_fuel(byte_len, 2);
                }
            }
            self.replace_text_in_range(None, "\n");
            true
        } else {
            false
        }
    }

    /// The selection step of a deletion: the empty selection is extended to
    /// `boundary`, which lies on a character start.
    fn extend_empty_selection(&mut self, boundary: usize)
        requires
            is_char_start(old(self)@.text, boundary as int),
            old(self)@.can_delete(),
        ensures
            final(self)@ == if !(old(self)@.selected_range.start < old(self)@.selected_range.end) {
                old(self)@.after_select_to(boundary)
            } else {
                old(self)@
            },
            final(self)@.can_edit(None),
    {
        if !(self.selected_range.start < self.selected_range.end) {
            self.select_to(boundary);
        }
    }

    /// Backspace: deletes the selection, or the grapheme before the cursor.
    pub fn backspace(&mut self)
        requires
            old(self)@.can_delete(),
        ensures
            final(self)@ == old(self)@.backspace_selection().after_replace(None, Seq::empty()),
            valid_range(final(self)@.text, final(self)@.selected_range),
            old(self)@.marked_range is None && old(self)@.selected_range.start < old(
                self,
            )@.selected_range.end ==> final(self)@.text == text_before(
                old(self)@.text,
                old(self)@.selected_range.start as int,
            ) + text_after(old(self)@.text, old(self)@.selected_range.end as int),
    {
        proof {
            if old(self)@.marked_range is None && old(self)@.selected_range.start < old(
                self,
            )@.selected_range.end {
                law_deleting_a_selection_removes_exactly_it(old(self)@);
            }
        }
        let b = self.previous_boundary(self.cursor_offset());
        self.extend_empty_selection(b);
        proof {
            reveal_strlit("");
        }
        self.replace_text_in_range(None, "");
    }

    /// Delete: deletes the selection, or the grapheme after the cursor.
    pub fn delete(&mut self)
        requires
            old(self)@.can_delete(),
        ensures
            final(self)@ == old(self)@.delete_selection().after_replace(None, Seq::empty()),
            valid_range(final(self)@.text, final(self)@.selected_range),
            old(self)@.marked_range is None && old(self)@.selected_range.start < old(
                self,
            )@.selected_range.end ==> final(self)@.text == text_before(
                old(self)@.text,
                old(self)@.selected_range.start as int,
            ) + text_after(old(self)@.text, old(self)@.selected_range.end as int),
    {
        proof {
            if old(self)@.marked_range is None && old(self)@.selected_range.start < old(
                self,
            )@.selected_range.end {
                law_deleting_a_selection_removes_exactly_it(old(self)@);
            }
        }
        let b = self.next_boundary(self.cursor_offset());
        self.extend_empty_selection(b);
        proof {
            reveal_strlit("");
        }
        self.replace_text_in_range(None, "");
    }

    /// Left arrow.
    pub fn left(&mut self)
        ensures
            final(self)@ == old(self)@.after_left(),
            valid_range(old(self)@.text, old(self)@.selected_range) ==> valid_range(
                final(self)@.text,
                final(self)@.selected_range,
            ),
            old(self)@.selected_range.start < old(self)@.selected_range.end
                ==> final(self)@.selected_range == (Range {
                start: old(self)@.selected_range.start,
                end: old(self)@.selected_range.start,
            }),
            !(old(self)@.selected_range.start < old(self)@.selected_range.end) ==> {
                &&& final(self)@.selected_range.start == final(self)@.selected_range.end
                &&& final(self)@.selected_range.end <= old(self)@.cursor()
                &&& old(self)@.cursor() > 0 ==> final(self)@.selected_range.end < old(self)@.cursor()
            },
    {
        if !(self.selected_range.start < self.selected_range.end) {
            let b = self.previous_boundary(self.cursor_offset());
            self.move_to(b);
        } else {
            self.move_to(self.selected_range.start);
        }
    }

    /// Right arrow.
    pub fn right(&mut self)
        ensures
            final(self)@ == old(self)@.after_right(),
            valid_range(old(self)@.text, old(self)@.selected_range) ==> valid_range(
                final(self)@.text,
                final(self)@.selected_range,
            ),
            old(self)@.selected_range.start < old(self)@.selected_range.end
                ==> final(self)@.selected_range == (Range {
                start: old(self)@.selected_range.end,
                end: old(self)@.selected_range.end,
            }),
            !(old(self)@.selected_range.start < old(self)@.selected_range.end) ==> {
                &&& final(self)@.selected_range.start == final(self)@.selected_range.end
                &&& final(self)@.selected_range.end <= byte_len(old(self)@.text)
                &&& old(self)@.selected_range.end < byte_len(old(self)@.text)
                    ==> final(self)@.selected_range.end > old(self)@.selected_range.end
            },
    {
        if !(self.selected_range.start < self.selected_range.end) {
            let b = self.next_boundary(self.selected_range.end);
            self.move_to(b);
        } else {
            self.move_to(self.selected_range.end);
        }
    }

    /// Shift+Left: extends the selection to the previous grapheme boundary.
    pub fn select_left(&mut self)
        ensures
            final(self)@ == old(self)@.after_select_to(
                last_offset_before(grapheme_offsets_of(old(self)@.text), old(self)@.cursor() as int)
                    as usize,
            ),
            valid_range(old(self)@.text, old(self)@.selected_range) ==> valid_range(
                final(self)@.text,
                final(self)@.selected_range,
            ),
    {
        let b = self.previous_boundary(self.cursor_offset());
        self.select_to(b);
    }

    /// Shift+Right: extends the selection to the next grapheme boundary.
    pub fn select_right(&mut self)
        ensures
            final(self)@ == old(self)@.after_select_to(
                first_offset_after(
                    grapheme_offsets_of(old(self)@.text),
                    old(self)@.cursor() as int,
                    byte_len(old(self)@.text) as int,
                ) as usize,
            ),
            valid_range(old(self)@.text, old(self)@.selected_range) ==> valid_range(
                final(self)@.text,
                final(self)@.selected_range,
            ),
    {
        let b = self.next_boundary(self.cursor_offset());
        self.select_to(b);
    }

    /// Selects the whole text, with the cursor at its end.
    pub fn select_all(&mut self)
        ensures
            final(self)@ == old(self)@.after_move_to(0).after_select_to(
                byte_len(old(self)@.text) as usize,
            ),
            final(self)@.selected_range == (Range { start: 0usize, end: byte_len(old(self)@.text) as usize }),
            final(self)@.cursor() == byte_len(old(self)@.text),
            valid_range(final(self)@.text, final(self)@.selected_range),
    {
        proof {
            lemma_char_start_of_take(self@.text, 0);
            lemma_char_start_of_take(self@.text, self@.text.len() as int);
            assert(self@.text.take(0) =~= Seq::<char>::empty());
            assert(self@.text.take(self@.text.len() as int) =~= self@.text);
        }
        self.move_to(0);
        let n = byte_length(self.text.as_str());
        self.select_to(n);
    }

    /// Home: the cursor to the start of the text.
    pub fn home(&mut self)
        ensures
            final(self)@ == old(self)@.after_move_to(0),
            valid_range(final(self)@.text, final(self)@.selected_range),
    {
        proof {
            lemma_char_start_of_take(self@.text, 0);
            lemma_char_start_of_take(self@.text, self@.text.len() as int);
            assert(self@.text.take(0) =~= Seq::<char>::empty());
            assert(self@.text.take(self@.text.len() as int) =~= self@.text);
        }
        self.move_to(0);
    }

    /// End: the cursor to the end of the text.
    pub fn end(&mut self)
        ensures
            final(self)@ == old(self)@.after_move_to(byte_len(old(self)@.text) as usize),
            valid_range(final(self)@.text, final(self)@.selected_range),
    {
        proof {
            lemma_char_start_of_take(self@.text, 0);
            lemma_char_start_of_take(self@.text, self@.text.len() as int);
            assert(self@.text.take(0) =~= Seq::<char>::empty());
            assert(self@.text.take(self@.text.len() as int) =~= self@.text);
        }
        let n = byte_length(self.text.as_str());
        self.move_to(n);
    }

    /// Pastes the text of the clipboard, where it holds text. Answers
    /// whether it did; where not, the clipboard item is for the rich paste
    /// listener.
    pub fn paste(&mut self, clipboard_text: Option<&str>) -> (pasted: bool)
        requires
            clipboard_text is Some ==> old(self)@.can_edit(None),
            clipboard_text is Some ==> old(self)@.edit_range(None).start + byte_len(
                clipboard_text->0@,
            ) <= usize::MAX,
        ensures
            pasted == clipboard_text is Some,
            final(self)@ == match clipboard_text {
                Some(t) => old(self)@.after_replace(None, t@),
                None => old(self)@,
            },
    {
        match clipboard_text {
            Some(t) => {
                self.replace_text_in_range(None, t);
                true
            },
            None => false,
        }
    }

    /// The selected text for the clipboard, where the selection is not empty.
    pub fn copy(&self) -> (r: Option<String>)
        requires
            self@.selected_range.start < self@.selected_range.end ==> valid_range(
                self@.text,
                self@.selected_range,
            ),
        ensures
            r.is_some() == self@.selected_text().is_some(),
            r.is_some() ==> r->0@ == self@.selected_text()->0,
    {
        if self.selected_range.start < self.selected_range.end {
            let r = Range { start: self.selected_range.start, end: self.selected_range.end };
            Some(slice_bytes(self.text.as_str(), r.start, r.end).to_owned())
        } else {
            None
        }
    }

    /// Takes the selected text out for the clipboard, where the selection is
    /// not empty.
    pub fn cut(&mut self) -> (r: Option<String>)
        requires
            old(self)@.selected_range.start < old(self)@.selected_range.end ==> valid_range(
                old(self)@.text,
                old(self)@.selected_range,
            ) && old(self)@.can_edit(None),
        ensures
            r.is_some() == old(self)@.selected_text().is_some(),
            r.is_some() ==> r->0@ == old(self)@.selected_text()->0,
            final(self)@ == if r.is_some() {
                old(self)@.after_replace(None, Seq::empty())
            } else {
                old(self)@
            },
    {
        let r = self.copy();
        if r.is_some() {
            proof {
                reveal_strlit("");
            }
            self.replace_text_in_range(None, "");
        }
        r
    }

    /// The text in a UTF-16 range, and the UTF-16 range that it really covers.
    pub fn text_for_range(&self, range_utf16: Range<usize>) -> (r: (String, Range<usize>))
        requires
            utf8_offset_of_utf16(self@.text, range_utf16.start as int) <= utf8_offset_of_utf16(
                self@.text,
                range_utf16.end as int,
            ),
        ensures
            r.0@ == text_between(
                self@.text,
                range_from_utf16_spec(self@.text, range_utf16).start as int,
                range_from_utf16_spec(self@.text, range_utf16).end as int,
            ),
            r.1 == range_to_utf16_spec(self@.text, range_from_utf16_spec(self@.text, range_utf16)),
    {
        let range = self.range_from_utf16(&range_utf16);
        let actual = self.range_to_utf16(&range);
        let piece = slice_bytes(self.text.as_str(), range.start, range.end);
        (piece.to_owned(), actual)
    }

    /// The selection in UTF-16 offsets, and whether it is reversed.
    pub fn selected_text_range(&self) -> (r: (Range<usize>, bool))
        ensures
            r.0 == range_to_utf16_spec(self@.text, self@.selected_range),
            r.1 == self@.selection_reversed,
    {
        (self.range_to_utf16(&self.selected_range), self.selection_reversed)
    }

    /// The marked range in UTF-16 offsets.
    pub fn marked_text_range(&self) -> (r: Option<Range<usize>>)
        ensures
            r == match self@.marked_range {
                Some(m) => Some(range_to_utf16_spec(self@.text, m)),
                None => None,
            },
    {
        match &self.marked_range {
            Some(m) => Some(self.range_to_utf16(m)),
            None => None,
        }
    }

    /// Ends the composition: nothing is marked any more.
    pub fn unmark_text(&mut self)
        ensures
            final(self)@ == (TextFieldView { marked_range: None, ..old(self)@ }),
    {
        self.marked_range = None;
    }

    /// Replaces the edit range by `new_text` and marks the new text, as an
    /// input method composes; the selection is placed as the input method
    /// asks, or after the new text.
    pub fn replace_and_mark_text_in_range(
        &mut self,
        range_utf16: Option<Range<usize>>,
        new_text: &str,
        new_selected_range_utf16: Option<Range<usize>>,
    )
        requires
            old(self)@.can_edit(range_utf16),
            old(self)@.mark_fits(range_utf16, new_text@, new_selected_range_utf16),
        ensures
            final(self)@ == old(self)@.after_replace_and_mark(
                range_utf16,
                new_text@,
                new_selected_range_utf16,
            ),
    {
        let range = self.edit_range(&range_utf16);
        let text = self.replaced_text(&range, new_text);
        let n = byte_length(new_text);
        self.text = text;
        if n > 0 {
            self.marked_range = Some(Range { start: range.start, end: range.start + n });
        } else {
            self.marked_range = None;
        }
        match &new_selected_range_utf16 {
            Some(r) => {
                let nr = self.range_from_utf16(r);
                self.selected_range = Range { start: nr.start + range.start, end: nr.end + range.end };
            },
            None => {
                self.selected_range = Range { start: range.start + n, end: range.start + n };
            },
        }
    }
}

impl TextFieldView {
    /// A deletion by Backspace or Delete can be made: the marked range where
    /// there is one, else the selection where it is not empty, else the end
    /// of the selection that stays, lies on character starts.
    pub open spec fn can_delete(self) -> bool {
        match self.marked_range {
            Some(m) => valid_range(self.text, m),
            None => if self.selected_range.start < self.selected_range.end {
                valid_range(self.text, self.selected_range)
            } else {
                is_char_start(self.text, self.anchor() as int)
            },
        }
    }

    /// The field after Left: an empty selection moves to the previous
    /// grapheme boundary, a selection collapses to its start.
    pub open spec fn after_left(self) -> TextFieldView {
        if !(self.selected_range.start < self.selected_range.end) {
            self.after_move_to(
                last_offset_before(grapheme_offsets_of(self.text), self.cursor() as int) as usize,
            )
        } else {
            self.after_move_to(self.selected_range.start)
        }
    }

    /// The field after Right: an empty selection moves to the next grapheme
    /// boundary after its end, a selection collapses to its end.
    pub open spec fn after_right(self) -> TextFieldView {
        if !(self.selected_range.start < self.selected_range.end) {
            self.after_move_to(
                first_offset_after(
                    grapheme_offsets_of(self.text),
                    self.selected_range.end as int,
                    byte_len(self.text) as int,
                ) as usize,
            )
        } else {
            self.after_move_to(self.selected_range.end)
        }
    }

    /// The selected text, where the selection is not empty.
    pub open spec fn selected_text(self) -> Option<Seq<char>> {
        if self.selected_range.start < self.selected_range.end {
            Some(
                text_between(
                    self.text,
                    self.selected_range.start as int,
                    self.selected_range.end as int,
                ),
            )
        } else {
            None
        }
    }

    /// The field after `replace_and_mark_text_in_range`: the range replaced,
    /// the new text marked (unless empty), and the selection placed by the
    /// given UTF-16 range, shifted by the ends of the replaced range, or
    /// after the new text.
    pub open spec fn after_replace_and_mark(
        self,
        range_utf16: Option<Range<usize>>,
        new_text: Seq<char>,
        new_selected_range_utf16: Option<Range<usize>>,
    ) -> TextFieldView {
        let range = self.edit_range(range_utf16);
        let n = byte_len(new_text);
        let text = self.replaced_text(range, new_text);
        TextFieldView {
            text,
            marked_range: if n > 0 {
                Some(Range { start: range.start, end: (range.start + n) as usize })
            } else {
                None
            },
            selected_range: match new_selected_range_utf16 {
                Some(r) => {
                    let nr = range_from_utf16_spec(text, r);
                    Range {
                        start: (nr.start + range.start) as usize,
                        end: (nr.end + range.end) as usize,
                    }
                },
                None => Range {
                    start: (range.start + n) as usize,
                    end: (range.start + n) as usize,
                },
            },
            ..self
        }
    }

    /// The offsets that `replace_and_mark_text_in_range` computes fit in a `usize`.
    pub open spec fn mark_fits(
        self,
        range_utf16: Option<Range<usize>>,
        new_text: Seq<char>,
        new_selected_range_utf16: Option<Range<usize>>,
    ) -> bool {
        let range = self.edit_range(range_utf16);
        let text = self.replaced_text(range, new_text);
        &&& range.start + byte_len(new_text) <= usize::MAX
        &&& match new_selected_range_utf16 {
            Some(r) => {
                let nr = range_from_utf16_spec(text, r);
                nr.start + range.start <= usize::MAX && nr.end + range.end <= usize::MAX
            },
            None => true,
        }
    }

    pub open spec fn with_selecting(self, is_selecting: bool) -> TextFieldView {
        TextFieldView { is_selecting, ..self }
    }
}

/// Where the mouse is over a text field: the field was not laid out yet, the
/// mouse is above or below the text, or it is on a line, `index_in_line`
/// bytes into line `line_index` (the closest index to it there).
#[derive(Clone, Copy, PartialEq, Eq, Structural)]
pub enum MousePlacement {
    NotLaidOut,
    Above,
    Below,
    OnLine { line_index: usize, index_in_line: usize },
}

/// The editing actions of a text field.
#[derive(Clone, Copy, PartialEq, Eq, Structural)]
pub enum TextFieldAction {
    Enter,
    NewLine,
    Backspace,
    Delete,
    Left,
    Right,
    SelectLeft,
    SelectRight,
    SelectAll,
    Home,
    End,
    ShowCharacterPalette,
    Paste,
    Cut,
    Copy,
    Quit,
}

/// The keys bound to the editing actions of text fields, as keystroke
/// descriptions and actions, in the order they are bound.
pub fn text_field_key_bindings() -> (r: Vec<(&'static str, TextFieldAction)>)
    ensures
        r@.len() == 15,
        r@[0].0@ == "enter"@ && r@[0].1 == TextFieldAction::Enter,
        r@[1].0@ == "shift-enter"@ && r@[1].1 == TextFieldAction::NewLine,
        r@[2].0@ == "backspace"@ && r@[2].1 == TextFieldAction::Backspace,
        r@[3].0@ == "delete"@ && r@[3].1 == TextFieldAction::Delete,
        r@[4].0@ == "left"@ && r@[4].1 == TextFieldAction::Left,
        r@[5].0@ == "right"@ && r@[5].1 == TextFieldAction::Right,
        r@[6].0@ == "shift-left"@ && r@[6].1 == TextFieldAction::SelectLeft,
        r@[7].0@ == "shift-right"@ && r@[7].1 == TextFieldAction::SelectRight,
        r@[8].0@ == "secondary-a"@ && r@[8].1 == TextFieldAction::SelectAll,
        r@[9].0@ == "secondary-v"@ && r@[9].1 == TextFieldAction::Paste,
        r@[10].0@ == "secondary-c"@ && r@[10].1 == TextFieldAction::Copy,
        r@[11].0@ == "secondary-x"@ && r@[11].1 == TextFieldAction::Cut,
        r@[12].0@ == "home"@ && r@[12].1 == TextFieldAction::Home,
        r@[13].0@ == "end"@ && r@[13].1 == TextFieldAction::End,
        r@[14].0@ == "ctrl-cmd-space"@ && r@[14].1 == TextFieldAction::ShowCharacterPalette,
{
    let mut r: Vec<(&'static str, TextFieldAction)> = Vec::new();
    r.push(("enter", TextFieldAction::Enter));
    r.push(("shift-enter", TextFieldAction::NewLine));
    r.push(("backspace", TextFieldAction::Backspace));
    r.push(("delete", TextFieldAction::Delete));
    r.push(("left", TextFieldAction::Left));
    r.push(("right", TextFieldAction::Right));
    r.push(("shift-left", TextFieldAction::SelectLeft));
    r.push(("shift-right", TextFieldAction::SelectRight));
    r.push(("secondary-a", TextFieldAction::SelectAll));
    r.push(("secondary-v", TextFieldAction::Paste));
    r.push(("secondary-c", TextFieldAction::Copy));
    r.push(("secondary-x", TextFieldAction::Cut));
    r.push(("home", TextFieldAction::Home));
    r.push(("end", TextFieldAction::End));
    r.push(("ctrl-cmd-space", TextFieldAction::ShowCharacterPalette));
    r
}

proof fn lemma_byte_len_repeat(c: char, n: nat)
    requires
        utf8_width(c) == 1,
    ensures
        byte_len(Seq::new(n, |_i: int| c)) == n,
    decreases n,
{
    if n > 0 {
        assert(Seq::new(n, |_i: int| c).drop_first() =~= Seq::new((n - 1) as nat, |_i: int| c));
        lemma_byte_len_repeat(c, (n - 1) as nat);
    }
}

/// With a mask character of one byte (as the password mask is), a masked
/// line takes as many bytes as the line itself, so offsets into the text
/// fall on the same places of the masked display.
pub proof fn law_single_byte_mask_keeps_line_lengths(mask_mode: MaskMode, line: Seq<char>)
    requires
        mask_mode matches MaskMode::Mask(c) ==> utf8_width(c) == 1,
    ensures
        byte_len(masked_line(mask_mode, line)) == byte_len(line),
{
    match mask_mode {
        MaskMode::Mask(c) => lemma_byte_len_repeat(c, byte_len(line)),
        MaskMode::Clear => {},
    }
}

/// Selecting all and copying gives the whole text (nothing, where the text
/// is empty).
pub proof fn law_select_all_copies_everything(v: TextFieldView)
    requires
        byte_len(v.text) <= usize::MAX,
    ensures
        ({
            let w = v.after_move_to(0).after_select_to(byte_len(v.text) as usize);
            &&& valid_range(w.text, w.selected_range)
            &&& w.selected_text() == if v.text.len() > 0 {
                Some(v.text)
            } else {
                None
            }
        }),
{
    let s = v.text;
    assert(s.take(0) =~= Seq::<char>::empty());
    assert(s.take(s.len() as int) =~= s);
    lemma_char_start_of_take(s, 0);
    lemma_char_start_of_take(s, s.len() as int);
    if s.len() > 0 {
        lemma_byte_len_take_mono(s, 0, s.len() as int);
    }
    assert(s.subrange(0, s.len() as int) =~= s);
}


/// Backspace and Delete with a selection and no marked text delete exactly
/// the selection: the text before its start and the text after its end are
/// joined, and the cursor lands where the selection started.
pub proof fn law_deleting_a_selection_removes_exactly_it(v: TextFieldView)
    requires
        v.marked_range is None,
        v.selected_range.start < v.selected_range.end,
    ensures
        ({
            let joined = text_before(v.text, v.selected_range.start as int) + text_after(
                v.text,
                v.selected_range.end as int,
            );
            let cursor = Range { start: v.selected_range.start, end: v.selected_range.start };
            let b = v.backspace_selection().after_replace(None, Seq::empty());
            let d = v.delete_selection().after_replace(None, Seq::empty());
            &&& b.text == joined
            &&& b.selected_range == cursor
            &&& d.text == joined
            &&& d.selected_range == cursor
        }),
{
    let joined = text_before(v.text, v.selected_range.start as int) + text_after(
        v.text,
        v.selected_range.end as int,
    );
    assert(text_before(v.text, v.selected_range.start as int) + Seq::<char>::empty() + text_after(
        v.text,
        v.selected_range.end as int,
    ) =~= joined);
    assert(byte_len(Seq::<char>::empty()) == 0);
}

/// Left and Right on a selection collapse it: Left to its start, Right to
/// its end, whichever end the cursor is at.
pub proof fn law_arrows_collapse_a_selection(v: TextFieldView)
    requires
        v.selected_range.start < v.selected_range.end,
    ensures
        v.after_left().selected_range == (Range { start: v.selected_range.start, end: v.selected_range.start }),
        v.after_right().selected_range == (Range { start: v.selected_range.end, end: v.selected_range.end }),
        v.after_left().text == v.text,
        v.after_right().text == v.text,
{
}

} // verus!
