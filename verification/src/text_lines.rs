//! Splitting text into display lines, and grapheme cluster boundaries.
use crate::utf::{is_char_start, byte_len, byte_length, char_len_utf8, lemma_byte_len_take_mono, lemma_byte_len_take_step, slice_chars};
use unicode_segmentation::UnicodeSegmentation;
use vstd::prelude::*;
use vstd::string::axiom_spec_iter;

verus! {

/// The pieces of `s` between the `'\n'` characters, in order (one more
/// piece than there are `'\n'` characters).
pub open spec fn split_on_newlines(s: Seq<char>) -> Seq<Seq<char>>
    decreases s.len(),
{
    if s.len() == 0 {
        seq![Seq::<char>::empty()]
    } else {
        let pieces = split_on_newlines(s.drop_last());
        if s.last() == '\n' {
            pieces.push(Seq::<char>::empty())
        } else {
            pieces.update(pieces.len() - 1, pieces.last().push(s.last()))
        }
    }
}

/// `line` without one trailing `'\r'`, where it ends in one.
pub open spec fn strip_cr(line: Seq<char>) -> Seq<char> {
    if line.len() > 0 && line.last() == '\r' {
        line.drop_last()
    } else {
        line
    }
}

/// The lines of `s`: its pieces between `'\n'` characters, each without a
/// trailing `'\r'`.
pub open spec fn string_lines(s: Seq<char>) -> Seq<Seq<char>> {
    split_on_newlines(s).map_values(|line: Seq<char>| strip_cr(line))
}

/// The views of a sequence of string slices.
pub open spec fn str_views(v: Seq<&str>) -> Seq<Seq<char>> {
    v.map_values(|l: &str| l@)
}

proof fn lemma_views_push(v: Seq<&str>, x: &str, done: Seq<Seq<char>>, cur: Seq<char>)
    requires
        str_views(v) == done.map_values(|line: Seq<char>| strip_cr(line)),
        x@ == strip_cr(cur),
    ensures
        str_views(v.push(x)) == done.push(cur).map_values(|line: Seq<char>| strip_cr(line)),
{
    let lhs = str_views(v.push(x));
    let rhs = done.push(cur).map_values(|line: Seq<char>| strip_cr(line));
    assert(str_views(v).len() == v.len());
    assert(lhs.len() == rhs.len());
    assert forall|k: int| 0 <= k < lhs.len() implies lhs[k] == rhs[k] by {
        if k < v.len() {
            assert(v.push(x)[k] == v[k]);
            assert(str_views(v)[k] == v[k]@);
        }
    }
    assert(lhs =~= rhs);
}

pub proof fn lemma_split_on_newlines_len(s: Seq<char>)
    ensures
        split_on_newlines(s).len() >= 1,
    decreases s.len(),
{
    if s.len() > 0 {
        lemma_split_on_newlines_len(s.drop_last());
    }
}

/// No piece of the split holds a `'\n'`.
pub proof fn lemma_split_pieces_have_no_newline(s: Seq<char>)
    ensures
        forall|i: int, j: int|
            0 <= i < split_on_newlines(s).len() && 0 <= j < split_on_newlines(s)[i].len()
                ==> #[trigger] split_on_newlines(s)[i][j] != '\n',
    decreases s.len(),
{
    if s.len() > 0 {
        lemma_split_pieces_have_no_newline(s.drop_last());
        lemma_split_on_newlines_len(s.drop_last());
    }
}

/// The text split into lines at each `'\n'`, and a `'\r'` that ends a line
/// taken off it.
pub fn split_string_lines(string: &str) -> (lines: Vec<&str>)
    ensures
        str_views(lines@) == string_lines(string@),
{
    let _total = byte_length(string);
    let ghost s = string@;
    let mut lines: Vec<&str> = Vec::new();
    let mut start: usize = 0;
    let mut pos: usize = 0;
    let mut last_cr = false;
    let mut chars = string.chars();
    let ghost mut i: int = 0;
    let ghost mut line_start: int = 0;
    let ghost mut done: Seq<Seq<char>> = Seq::empty();
    proof {
        axiom_spec_iter(string);
        assert(s.skip(0) =~= s);
        assert(s.take(0) =~= Seq::<char>::empty());
        assert(split_on_newlines(s.take(0)) =~= done + seq![s.subrange(0, 0)]);
    }
    loop
        invariant_except_break
            vstd::std_specs::iter::IteratorSpec::remaining(&chars) == s.skip(i),
        invariant
            s == string@,
            0 <= line_start <= i <= s.len(),
            start == byte_len(s.take(line_start)),
            pos == byte_len(s.take(i)),
            byte_len(s) == _total,
            split_on_newlines(s.take(i)) == done + seq![s.subrange(line_start, i)],
            str_views(lines@) == done.map_values(|line: Seq<char>| strip_cr(line)),
            last_cr == (line_start < i && s[i - 1] == '\r'),
        ensures
            i == s.len(),
        decreases s.len() - i,
    {
        let next = chars.next();
        match next {
            None => {
                proof {
                    assert(s.skip(i).len() == 0);
                }
                break;
            },
            Some(ch) => {
                proof {
                    assert(ch == s[i]);
                    lemma_byte_len_take_step(s, i);
                    lemma_byte_len_take_mono(s, i + 1, s.len() as int);
                    assert(s.take(i + 1).drop_last() =~= s.take(i));
                    assert(s.take(i + 1).last() == ch);
                }
                if ch == '\n' {
                    let ghost cur = s.subrange(line_start, i);
                    let end = if last_cr {
                        proof {
                            lemma_byte_len_take_step(s, i - 1);
                        }
                        pos - 1
                    } else {
                        pos
                    };
                    let ghost end_char: int = if last_cr {
                        i - 1
                    } else {
                        i
                    };
                    let piece = slice_chars(string, start, end, Ghost(line_start), Ghost(end_char));
                    proof {
                        assert(piece@ == strip_cr(cur)) by {
                            if last_cr {
                                assert(cur.drop_last() =~= s.subrange(line_start, i - 1));
                            }
                        }
                    }
                    proof {
                        lemma_views_push(lines@, piece, done, cur);
                    }
                    lines.push(piece);
                    start = pos + 1;
                    proof {
                        assert(s.subrange(i + 1, i + 1) =~= Seq::<char>::empty());
                        assert(split_on_newlines(s.take(i + 1)) =~= done.push(cur) + seq![
                            s.subrange(i + 1, i + 1),
                        ]);
                        done = done.push(cur);
                        line_start = i + 1;
                    }
                    last_cr = false;
                } else {
                    proof {
                        assert(s.subrange(line_start, i).push(ch) =~= s.subrange(line_start, i + 1));
                        assert(split_on_newlines(s.take(i + 1)) =~= done + seq![
                            s.subrange(line_start, i + 1),
                        ]);
                    }
                    last_cr = ch == '\r';
                }
                pos = pos + char_len_utf8(ch);
                proof {
                    i = i + 1;
                }
            },
        }
    }
    let ghost cur = s.subrange(line_start, i);
    let end = if last_cr {
        proof {
            lemma_byte_len_take_step(s, i - 1);
        }
        pos - 1
    } else {
        pos
    };
    let ghost end_char: int = if last_cr {
        i - 1
    } else {
        i
    };
    let piece = slice_chars(string, start, end, Ghost(line_start), Ghost(end_char));
    proof {
        assert(piece@ == strip_cr(cur)) by {
            if last_cr {
                assert(cur.drop_last() =~= s.subrange(line_start, i - 1));
            }
        }
    }
    proof {
        lemma_views_push(lines@, piece, done, cur);
        assert(s.take(i) =~= s);
        assert(done + seq![cur] =~= done.push(cur));
    }
    lines.push(piece);
    lines
}

/// The byte offsets at which the extended grapheme clusters of a text start,
/// as `unicode_segmentation` finds them.
pub uninterp spec fn grapheme_offsets_of(text: Seq<char>) -> Seq<usize>;

/// The facts about grapheme offsets that the segmentation gives: they rise
/// strictly, each is the start of a character before the end of the text,
/// and the first is 0 where the text is not empty.
pub open spec fn grapheme_offsets_wf(text: Seq<char>, offsets: Seq<usize>) -> bool {
    &&& forall|i: int, j: int| 0 <= i < j < offsets.len() ==> offsets[i] < offsets[j]
    &&& forall|i: int|
        0 <= i < offsets.len() ==> offsets[i] < byte_len(text) && is_char_start(
            text,
            #[trigger] offsets[i] as int,
        )
    &&& (text.len() == 0 <==> offsets.len() == 0)
    &&& text.len() > 0 ==> offsets[0] == 0
}

/// Calls `UnicodeSegmentation::grapheme_indices(text, true)` and keeps the byte
/// offset of each extended grapheme cluster. The clusters are consecutive,
/// non-empty slices of `text` that start at 0 and cover it, so their offsets
/// rise strictly, start characters and lie before the end. Which offsets they
/// are (the Unicode segmentation rules) is left to the name
/// `grapheme_offsets_of`.
#[verifier::external_body]
fn grapheme_offsets(text: &str) -> (offsets: Vec<usize>)
    ensures
        offsets@ == grapheme_offsets_of(text@),
        grapheme_offsets_wf(text@, offsets@),
{
    text.grapheme_indices(true).map(|(offset, _)| offset).collect()
}

/// The last offset in `offsets` that lies before `offset`, or 0 where none does.
pub open spec fn last_offset_before(offsets: Seq<usize>, offset: int) -> int
    decreases offsets.len(),
{
    if offsets.len() == 0 {
        0
    } else if offsets.last() < offset {
        offsets.last() as int
    } else {
        last_offset_before(offsets.drop_last(), offset)
    }
}

/// The first offset in `offsets` that lies after `offset`, or `end` where none does.
pub open spec fn first_offset_after(offsets: Seq<usize>, offset: int, end: int) -> int
    decreases offsets.len(),
{
    if offsets.len() == 0 {
        end
    } else if offsets[0] > offset {
        offsets[0] as int
    } else {
        first_offset_after(offsets.drop_first(), offset, end)
    }
}

/// The grapheme boundary before `offset` in `text`: the start of the last
/// grapheme cluster that starts before it, or 0.
pub fn previous_grapheme_boundary(text: &str, offset: usize) -> (r: usize)
    ensures
        r == last_offset_before(grapheme_offsets_of(text@), offset as int),
        is_char_start(text@, r as int),
        offset > 0 ==> r < offset,
        r <= offset,
{
    let offsets = grapheme_offsets(text);
    let ghost g = offsets@;
    let mut n = offsets.len();
    proof {
        assert(g.take(n as int) =~= g);
        assert(text@.take(0) =~= Seq::<char>::empty());
    }
    while n > 0
        invariant
            n <= g.len(),
            g == offsets@,
            g == grapheme_offsets_of(text@),
            grapheme_offsets_wf(text@, g),
            last_offset_before(g, offset as int) == last_offset_before(g.take(n as int), offset as int),
            forall|i: int| n <= i < g.len() ==> g[i] >= offset,
        decreases n,
    {
        if offsets[n - 1] < offset {
            proof {
                assert(g.take(n as int).last() == g[n - 1]);
                assert(g.take(n as int).len() > 0);
                assert(last_offset_before(g.take(n as int), offset as int) == g[n - 1] as int);
            }
            return offsets[n - 1];
        }
        proof {
            assert(g.take(n as int).drop_last() =~= g.take(n - 1));
        }
        n = n - 1;
    }
    proof {
        assert(g.take(0) =~= Seq::<usize>::empty());
    }
    0
}

/// The grapheme boundary after `offset` in `text`: the start of the first
/// grapheme cluster that starts after it, or the end of the text.
pub fn next_grapheme_boundary(text: &str, offset: usize) -> (r: usize)
    ensures
        r == first_offset_after(grapheme_offsets_of(text@), offset as int, byte_len(text@) as int),
        is_char_start(text@, r as int),
        offset < byte_len(text@) ==> offset < r,
        offset <= byte_len(text@) ==> offset <= r,
        r <= byte_len(text@),
{
    let len = byte_length(text);
    let offsets = grapheme_offsets(text);
    let ghost g = offsets@;
    let mut i: usize = 0;
    proof {
        assert(g.skip(0) =~= g);
        assert(text@.take(text@.len() as int) =~= text@);
    }
    while i < offsets.len()
        invariant
            i <= g.len(),
            g == offsets@,
            g == grapheme_offsets_of(text@),
            len == byte_len(text@),
            grapheme_offsets_wf(text@, g),
            first_offset_after(g, offset as int, len as int) == first_offset_after(
                g.skip(i as int),
                offset as int,
                len as int,
            ),
            forall|k: int| 0 <= k < i ==> g[k] <= offset,
        decreases g.len() - i,
    {
        if offsets[i] > offset {
            proof {
                assert(g.skip(i as int)[0] == g[i as int]);
                assert(first_offset_after(g.skip(i as int), offset as int, len as int) == g[i as int] as int);
            }
            return offsets[i];
        }
        proof {
            assert(g.skip(i as int).drop_first() =~= g.skip(i + 1));
        }
        i = i + 1;
    }
    proof {
        if offset < len && g.len() > 0 {
            assert(g[g.len() - 1] < len);
        }
        if offset < len && g.len() == 0 {
            assert(text@.len() == 0);
        }
    }
    len
}

/// The number of `'\n'` characters in `s`.
pub open spec fn newline_count(s: Seq<char>) -> nat
    decreases s.len(),
{
    if s.len() == 0 {
        0
    } else {
        newline_count(s.drop_last()) + if s.last() == '\n' {
            1nat
        } else {
            0nat
        }
    }
}

proof fn lemma_split_on_newlines_count(s: Seq<char>)
    ensures
        split_on_newlines(s).len() == newline_count(s) + 1,
    decreases s.len(),
{
    if s.len() > 0 {
        lemma_split_on_newlines_count(s.drop_last());
    }
}

/// A text has one line more than it has line breaks, and no line holds a
/// line break.
pub proof fn law_string_lines_shape(s: Seq<char>)
    ensures
        string_lines(s).len() == newline_count(s) + 1,
        forall|i: int, j: int|
            0 <= i < string_lines(s).len() && 0 <= j < string_lines(s)[i].len()
                ==> #[trigger] string_lines(s)[i][j] != '\n',
{
    lemma_split_on_newlines_count(s);
    lemma_split_pieces_have_no_newline(s);
    assert forall|i: int, j: int|
        0 <= i < string_lines(s).len() && 0 <= j < string_lines(s)[i].len() implies #[trigger] string_lines(s)[i][j] != '\n' by {
        let piece = split_on_newlines(s)[i];
        assert(string_lines(s)[i] == strip_cr(piece));
        assert(strip_cr(piece)[j] == piece[j]);
    }
}

} // verus!
