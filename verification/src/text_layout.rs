//! Where the cursor and the selection of a text field fall among its lines,
//! given the length in bytes of each line; lines are separated by one byte.
use vstd::prelude::*;

verus! {

/// The byte offset at which line `i` starts: the lengths of the lines before
/// it, each with its separator.
pub open spec fn line_start(lens: Seq<usize>, i: int) -> int
    decreases i,
{
    if i <= 0 {
        0
    } else {
        line_start(lens, i - 1) + lens[i - 1] + 1
    }
}

/// The byte offset at which line `i` ends.
pub open spec fn line_end(lens: Seq<usize>, i: int) -> int {
    line_start(lens, i) + lens[i]
}

/// All line starts and ends fit in a `usize`.
pub open spec fn lines_fit(lens: Seq<usize>) -> bool {
    line_start(lens, lens.len() as int) <= usize::MAX
}

/// Line `i` holds part of the selection `start..end`.
pub open spec fn line_in_selection(lens: Seq<usize>, i: int, start: int, end: int) -> bool {
    !(start > line_end(lens, i) || end < line_start(lens, i))
}

/// The part of line `i` that the selection covers, as the line's index and
/// two offsets into it: the start offset is 0 where the selection starts
/// before the line; the end offset is the line's absolute end where the
/// selection ends before the line's start.
pub open spec fn selection_span(lens: Seq<usize>, i: int, start: int, end: int) -> (
    usize,
    usize,
    usize,
) {
    (
        i as usize,
        if start >= line_start(lens, i) {
            (start - line_start(lens, i)) as usize
        } else {
            0
        },
        if end >= line_start(lens, i) {
            (end - line_start(lens, i)) as usize
        } else {
            line_end(lens, i) as usize
        },
    )
}

/// The spans of the selection over the first `n` lines, in line order.
pub open spec fn selection_spans_spec(lens: Seq<usize>, n: int, start: int, end: int) -> Seq<
    (usize, usize, usize),
>
    decreases n,
{
    if n <= 0 {
        Seq::empty()
    } else {
        let rest = selection_spans_spec(lens, n - 1, start, end);
        if line_in_selection(lens, n - 1, start, end) {
            rest.push(selection_span(lens, n - 1, start, end))
        } else {
            rest
        }
    }
}

/// Later lines start no earlier.
pub proof fn lemma_line_start_mono(lens: Seq<usize>, i: int, j: int)
    requires
        0 <= i <= j <= lens.len(),
    ensures
        line_start(lens, i) <= line_start(lens, j),
        i < j ==> line_end(lens, i) < line_start(lens, j),
    decreases j - i,
{
    if i < j {
        lemma_line_start_mono(lens, i, j - 1);
        if i < j - 1 {
            lemma_line_start_mono(lens, i + 1, j - 1);
        }
    }
}

proof fn lemma_spans_cover(lens: Seq<usize>, n: int, start: int, end: int)
    requires
        0 <= n <= lens.len(),
        lens.len() <= usize::MAX,
    ensures
        forall|k: int|
            0 <= k < selection_spans_spec(lens, n, start, end).len() ==> (#[trigger] selection_spans_spec(
                lens,
                n,
                start,
                end,
            )[k]).0 < n,
        forall|k: int, l: int|
            0 <= k < l < selection_spans_spec(lens, n, start, end).len() ==> (#[trigger] selection_spans_spec(
                lens,
                n,
                start,
                end,
            )[k]).0 < (#[trigger] selection_spans_spec(lens, n, start, end)[l]).0,
        forall|i: int|
            0 <= i < n ==> ((start <= line_end(lens, i) && line_start(lens, i) <= end) <==> exists|
                k: int,
            |
                0 <= k < selection_spans_spec(lens, n, start, end).len() && (#[trigger] selection_spans_spec(
                    lens,
                    n,
                    start,
                    end,
                )[k]).0 == i),
    decreases n,
{
    if n > 0 {
        lemma_spans_cover(lens, n - 1, start, end);
        let rest = selection_spans_spec(lens, n - 1, start, end);
        let all = selection_spans_spec(lens, n, start, end);
        assert forall|i: int|
            0 <= i < n implies ((start <= line_end(lens, i) && line_start(lens, i) <= end) <==> exists|
                k: int,
            | 0 <= k < all.len() && (#[trigger] all[k]).0 == i) by {
            if i < n - 1 {
                if start <= line_end(lens, i) && line_start(lens, i) <= end {
                    let k = choose|k: int| 0 <= k < rest.len() && (#[trigger] rest[k]).0 == i;
                    assert(all[k] == rest[k]);
                }
                if exists|k: int| 0 <= k < all.len() && (#[trigger] all[k]).0 == i {
                    let k = choose|k: int| 0 <= k < all.len() && (#[trigger] all[k]).0 == i;
                    if k < rest.len() {
                        assert(all[k] == rest[k]);
                    } else {
                        assert(all[k].0 == (n - 1) as usize);
                    }
                }
            } else {
                if start <= line_end(lens, i) && line_start(lens, i) <= end {
                    assert(all[all.len() - 1].0 == i);
                }
                if exists|k: int| 0 <= k < all.len() && (#[trigger] all[k]).0 == i {
                    let k = choose|k: int| 0 <= k < all.len() && (#[trigger] all[k]).0 == i;
                    if k < rest.len() {
                        assert(all[k] == rest[k]);
                        assert(rest[k].0 < n - 1);
                    }
                }
            }
        }
        assert forall|k: int, l: int| 0 <= k < l < all.len() implies (#[trigger] all[k]).0 < (
        #[trigger] all[l]).0 by {
            if l < rest.len() {
                assert(all[k] == rest[k] && all[l] == rest[l]);
            } else {
                assert(all[k] == rest[k]);
                assert(rest[k].0 < n - 1);
            }
        }
        assert forall|k: int| 0 <= k < all.len() implies (#[trigger] all[k]).0 < n by {
            if k < rest.len() {
                assert(all[k] == rest[k]);
            }
        }
    }
}

/// The selection's spans go over the lines in order, one span for each line
/// that the selection touches (it starts at or before the line's end and ends
/// at or after its start), and none for any other line.
pub proof fn law_selection_spans_cover_the_touched_lines(lens: Seq<usize>, start: int, end: int)
    requires
        lens.len() <= usize::MAX,
    ensures
        ({
            let spans = selection_spans_spec(lens, lens.len() as int, start, end);
            &&& forall|k: int, l: int|
                0 <= k < l < spans.len() ==> (#[trigger] spans[k]).0 < (#[trigger] spans[l]).0
            &&& forall|k: int| 0 <= k < spans.len() ==> (#[trigger] spans[k]).0 < lens.len()
            &&& forall|i: int|
                0 <= i < lens.len() ==> ((start <= line_end(lens, i) && line_start(lens, i) <= end)
                    <==> exists|k: int| 0 <= k < spans.len() && (#[trigger] spans[k]).0 == i)
        }),
{
    lemma_spans_cover(lens, lens.len() as int, start, end);
}

/// The line that holds the cursor, and the cursor's offset in it: the first
/// line that ends at or after the cursor. None where every line ends before it.
pub fn cursor_position(line_lengths: &Vec<usize>, cursor: usize) -> (r: Option<(usize, usize)>)
    requires
        lines_fit(line_lengths@),
    ensures
        match r {
            Some((i, offset)) => {
                &&& i < line_lengths@.len()
                &&& line_end(line_lengths@, i as int) >= cursor
                &&& forall|j: int|
                    0 <= j < i ==> #[trigger] line_end(line_lengths@, j) < cursor
                &&& line_start(line_lengths@, i as int) <= cursor
                &&& offset == cursor - line_start(line_lengths@, i as int)
                &&& offset <= line_lengths@[i as int]
            },
            None => forall|j: int|
                0 <= j < line_lengths@.len() ==> #[trigger] line_end(line_lengths@, j) < cursor,
        },
{
    let ghost lens = line_lengths@;
    let mut sum: usize = 0;
    let mut i: usize = 0;
    while i < line_lengths.len()
        invariant
            lens == line_lengths@,
            lines_fit(lens),
            i <= lens.len(),
            sum == line_start(lens, i as int),
            forall|j: int| 0 <= j < i ==> #[trigger] line_end(lens, j) < cursor,
            i > 0 ==> line_end(lens, i - 1) < cursor,
        decreases lens.len() - i,
    {
        proof {
            lemma_line_start_mono(lens, i as int, lens.len() as int);
            lemma_line_start_mono(lens, i + 1, lens.len() as int);
        }
        let len = line_lengths[i];
        if sum + len >= cursor {
            return Some((i, cursor - sum));
        }
        sum = sum + len + 1;
        i = i + 1;
    }
    None
}

/// The spans of the selection `start..end` over the lines, in line order:
/// for each line that it touches, the line's index and the offsets into the
/// line where the selection starts and ends.
pub fn selection_spans(line_lengths: &Vec<usize>, start: usize, end: usize) -> (r: Vec<
    (usize, usize, usize),
>)
    requires
        lines_fit(line_lengths@),
    ensures
        r@ == selection_spans_spec(line_lengths@, line_lengths@.len() as int, start as int, end as int),
        forall|i: int|
            0 <= i < line_lengths@.len() ==> ((start <= line_end(line_lengths@, i) && line_start(
                line_lengths@,
                i,
            ) <= end) <==> exists|k: int| 0 <= k < r@.len() && (#[trigger] r@[k]).0 == i),
{
    let _count = line_lengths.len();
    proof {
        law_selection_spans_cover_the_touched_lines(line_lengths@, start as int, end as int);
    }
    let ghost lens = line_lengths@;
    let mut spans: Vec<(usize, usize, usize)> = Vec::new();
    let mut sum: usize = 0;
    let mut i: usize = 0;
    while i < line_lengths.len()
        invariant
            lens == line_lengths@,
            lines_fit(lens),
            i <= lens.len(),
            sum == line_start(lens, i as int),
            spans@ == selection_spans_spec(lens, i as int, start as int, end as int),
        decreases lens.len() - i,
    {
        proof {
            lemma_line_start_mono(lens, i as int, lens.len() as int);
            lemma_line_start_mono(lens, i + 1, lens.len() as int);
        }
        let last_character = sum + line_lengths[i];
        if !(start > last_character || end < sum) {
            let from = if start >= sum {
                start - sum
            } else {
                0
            };
            let to = if end >= sum {
                end - sum
            } else {
                last_character
            };
            spans.push((i, from, to));
        }
        sum = last_character + 1;
        i = i + 1;
    }
    spans
}

/// Line `i` is the first line that ends at or after the cursor, and the
/// cursor lies `offset` bytes into it.
pub open spec fn cursor_on_line(lens: Seq<usize>, cursor: int, i: int, offset: int) -> bool {
    &&& 0 <= i < lens.len()
    &&& line_end(lens, i) >= cursor
    &&& forall|j: int| 0 <= j < i ==> #[trigger] line_end(lens, j) < cursor
    &&& offset == cursor - line_start(lens, i)
}

/// Every line ends before the cursor.
pub open spec fn cursor_past_lines(lens: Seq<usize>, cursor: int) -> bool {
    forall|j: int| 0 <= j < lens.len() ==> #[trigger] line_end(lens, j) < cursor
}

/// What a text field draws over its lines: the cursor, as its line and its
/// offset in it, or the spans of the selection.
pub enum CursorOrSelection {
    Cursor(usize, usize),
    Selection(Vec<(usize, usize, usize)>),
}

/// What a text field draws: the cursor exactly where nothing is selected (on
/// the line that holds it, or at the start of the first line where every
/// line ends before it), else the spans of the selection over the lines.
pub fn cursor_or_selection(line_lengths: &Vec<usize>, start: usize, end: usize, cursor: usize) -> (r:
    CursorOrSelection)
    requires
        lines_fit(line_lengths@),
    ensures
        match r {
            CursorOrSelection::Cursor(i, offset) => {
                &&& !(start < end)
                &&& cursor_on_line(line_lengths@, cursor as int, i as int, offset as int) || (
                cursor_past_lines(line_lengths@, cursor as int) && i == 0 && offset == 0)
            },
            CursorOrSelection::Selection(spans) => {
                &&& start < end
                &&& spans@ == selection_spans_spec(
                    line_lengths@,
                    line_lengths@.len() as int,
                    start as int,
                    end as int,
                )
            },
        },
{
    if start < end {
        CursorOrSelection::Selection(selection_spans(line_lengths, start, end))
    } else {
        match cursor_position(line_lengths, cursor) {
            Some((i, offset)) => CursorOrSelection::Cursor(i, offset),
            None => CursorOrSelection::Cursor(0, 0),
        }
    }
}

/// The runs a line of `line_len` bytes is drawn in: where text is marked,
/// the part before it, the marked part (underlined) and the part after it,
/// leaving out empty parts; else one run for the whole line.
pub open spec fn text_runs_spec(line_len: usize, marked: Option<(usize, usize)>) -> Seq<(usize, bool)> {
    match marked {
        Some((start, end)) => {
            let a = if start > 0 { seq![(start, false)] } else { Seq::empty() };
            let b = if end - start > 0 { seq![((end - start) as usize, true)] } else { Seq::empty() };
            let c = if line_len - end > 0 { seq![((line_len - end) as usize, false)] } else { Seq::empty() };
            a + b + c
        },
        None => seq![(line_len, false)],
    }
}

/// The total length of the runs, of the underlined ones only where
/// `underlined_only` holds.
pub open spec fn runs_length(runs: Seq<(usize, bool)>, underlined_only: bool) -> int
    decreases runs.len(),
{
    if runs.len() == 0 {
        0
    } else {
        runs_length(runs.drop_last(), underlined_only) + if !underlined_only || runs.last().1 {
            runs.last().0 as int
        } else {
            0
        }
    }
}

proof fn lemma_runs_length_push(runs: Seq<(usize, bool)>, run: (usize, bool), underlined_only: bool)
    ensures
        runs_length(runs.push(run), underlined_only) == runs_length(runs, underlined_only) + if !underlined_only || run.1 {
            run.0 as int
        } else {
            0
        },
{
    assert(runs.push(run).drop_last() =~= runs);
}

/// A line's runs cover the line exactly, none is empty, and the underlined
/// ones cover exactly the marked text.
pub proof fn law_runs_cover_the_line(line_len: usize, marked: Option<(usize, usize)>)
    requires
        marked matches Some((start, end)) ==> start <= end <= line_len,
    ensures
        runs_length(text_runs_spec(line_len, marked), false) == line_len,
        runs_length(text_runs_spec(line_len, marked), true) == match marked {
            Some((start, end)) => end - start,
            None => 0,
        },
        marked is Some ==> forall|k: int|
            0 <= k < text_runs_spec(line_len, marked).len() ==> (#[trigger] text_runs_spec(
                line_len,
                marked,
            )[k]).0 > 0,
{
    match marked {
        Some((start, end)) => {
            let e = Seq::<(usize, bool)>::empty();
            let x = if start > 0 { e.push((start, false)) } else { e };
            let y = if end - start > 0 { x.push(((end - start) as usize, true)) } else { x };
            let z = if line_len - end > 0 { y.push(((line_len - end) as usize, false)) } else { y };
            assert(z =~= text_runs_spec(line_len, marked));
            if start > 0 {
                lemma_runs_length_push(e, (start, false), false);
                lemma_runs_length_push(e, (start, false), true);
            }
            if end - start > 0 {
                lemma_runs_length_push(x, ((end - start) as usize, true), false);
                lemma_runs_length_push(x, ((end - start) as usize, true), true);
            }
            if line_len - end > 0 {
                lemma_runs_length_push(y, ((line_len - end) as usize, false), false);
                lemma_runs_length_push(y, ((line_len - end) as usize, false), true);
            }
        },
        None => {
            lemma_runs_length_push(Seq::empty(), (line_len, false), false);
            lemma_runs_length_push(Seq::empty(), (line_len, false), true);
            assert(Seq::<(usize, bool)>::empty().push((line_len, false)) =~= text_runs_spec(line_len, marked));
        },
    }
}

/// The runs of a line, each as its length in bytes and whether it is
/// underlined (the marked text).
pub fn text_runs(line_len: usize, marked: Option<(usize, usize)>) -> (r: Vec<(usize, bool)>)
    requires
        marked matches Some((start, end)) ==> start <= end <= line_len,
    ensures
        r@ == text_runs_spec(line_len, marked),
{
    match marked {
        Some((start, end)) => {
            let mut runs: Vec<(usize, bool)> = Vec::new();
            if start > 0 {
                runs.push((start, false));
            }
            if end - start > 0 {
                runs.push((end - start, true));
            }
            if line_len - end > 0 {
                runs.push((line_len - end, false));
            }
            proof {
                let a = if start > 0 { seq![(start, false)] } else { Seq::<(usize, bool)>::empty() };
                let b = if end - start > 0 { seq![((end - start) as usize, true)] } else { Seq::<(usize, bool)>::empty() };
                let c = if line_len - end > 0 { seq![((line_len - end) as usize, false)] } else { Seq::<(usize, bool)>::empty() };
                assert(runs@ =~= a + b + c);
            }
            runs
        },
        None => {
            let mut runs: Vec<(usize, bool)> = Vec::new();
            runs.push((line_len, false));
            proof {
                assert(runs@ =~= seq![(line_len, false)]);
            }
            runs
        },
    }
}

} // verus!
