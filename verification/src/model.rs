//! The mathematical model of the buffer: a sequence of numbered line texts,
//! and the operations of the editing core stated over it.

use vstd::prelude::*;

verus! {

use crate::point::Point;
use crate::point::point_min;
use crate::point::point_max;
use crate::textops::clamp;
use crate::textops::join_newlines;

/// What a stored line is mathematically: its logical number and its text.
#[verifier::ext_equal]
pub ghost struct LineModel {
    pub number: int,
    pub text: Seq<char>,
}

/// The index of the first line with logical number `n`, or -1 if none.
pub open spec fn first_index_with(lines: Seq<LineModel>, n: int) -> int
    decreases lines.len(),
{
    if lines.len() == 0 {
        -1
    } else if lines[0].number == n {
        0
    } else {
        let r = first_index_with(lines.drop_first(), n);
        if r < 0 {
            -1
        } else {
            r + 1
        }
    }
}

pub proof fn lemma_first_index_with_props(lines: Seq<LineModel>, n: int)
    ensures
        -1 <= first_index_with(lines, n) < lines.len(),
        first_index_with(lines, n) >= 0 ==> lines[first_index_with(lines, n)].number == n,
        first_index_with(lines, n) >= 0 ==> forall|j: int|
            0 <= j < first_index_with(lines, n) ==> lines[j].number != n,
        first_index_with(lines, n) < 0 ==> forall|j: int|
            0 <= j < lines.len() ==> lines[j].number != n,
    decreases lines.len(),
{
    if lines.len() > 0 && lines[0].number != n {
        lemma_first_index_with_props(lines.drop_first(), n);
        assert forall|j: int| 0 <= j < first_index_with(lines, n) implies lines[j].number
            != n by {
            if j > 0 {
                assert(lines[j] == lines.drop_first()[j - 1]);
            }
        }
        if first_index_with(lines, n) < 0 {
            assert forall|j: int| 0 <= j < lines.len() implies lines[j].number != n by {
                if j > 0 {
                    assert(lines[j] == lines.drop_first()[j - 1]);
                }
            }
        }
    }
}

pub proof fn lemma_first_index_with_found(lines: Seq<LineModel>, n: int, i: int)
    requires
        0 <= i < lines.len(),
        lines[i].number == n,
        forall|j: int| 0 <= j < i ==> lines[j].number != n,
    ensures
        first_index_with(lines, n) == i,
    decreases i,
{
    if i > 0 {
        assert(forall|j: int| 0 <= j < i - 1 ==> lines.drop_first()[j].number != n);
        lemma_first_index_with_found(lines.drop_first(), n, i - 1);
    }
}

pub proof fn lemma_first_index_with_none(lines: Seq<LineModel>, n: int)
    requires
        forall|j: int| 0 <= j < lines.len() ==> lines[j].number != n,
    ensures
        first_index_with(lines, n) == -1,
    decreases lines.len(),
{
    if lines.len() > 0 {
        lemma_first_index_with_none(lines.drop_first(), n);
    }
}

/// Replacing a line by one with the same number moves no lookup.
pub proof fn lemma_first_index_update_same_number(
    lines: Seq<LineModel>,
    j: int,
    l2: LineModel,
    n: int,
)
    requires
        0 <= j < lines.len(),
        l2.number == lines[j].number,
    ensures
        first_index_with(lines.update(j, l2), n) == first_index_with(lines, n),
{
    let u = lines.update(j, l2);
    lemma_first_index_with_props(lines, n);
    let r = first_index_with(lines, n);
    if r >= 0 {
        lemma_first_index_with_found(u, n, r);
    } else {
        lemma_first_index_with_none(u, n);
    }
}

/// The buffer after the same-row span of a cut is removed: the columns
/// between the two ends leave the row, the row itself stays. Across rows a
/// cut removes the span as `spec_delete_selection` does.
pub open spec fn spec_cut_lines(lines: Seq<LineModel>, a: Point, b: Point) -> Seq<LineModel> {
    let s = point_min(a, b);
    let e = point_max(a, b);
    if s.x == e.x {
        spec_change_line(lines, s.x as int, spec_cut_text(lines, s, e))
    } else {
        spec_delete_selection(lines, a, b)
    }
}

/// What stays of a row when its same-row span from `s` to `e` (in reading
/// order) is cut out: the text before the span and the text after it.
pub open spec fn spec_cut_text(lines: Seq<LineModel>, s: Point, e: Point) -> Seq<char> {
    let t = text_of(lines, s.x as int);
    let lo = clamp(s.y as int, t.len() as int);
    let hi = clamp(e.y as int, t.len() as int);
    t.subrange(0, lo) + t.subrange(hi, t.len() as int)
}

/// Line numbers form the contiguous ascending sequence 0, 1, 2, ...: unique,
/// no gaps. Every structural edit of the core keeps this shape.
pub open spec fn lines_wf(lines: Seq<LineModel>) -> bool {
    forall|i: int| 0 <= i < lines.len() ==> (#[trigger] lines[i]).number == i
}

/// Under well-formed numbering, looking a line up by number is indexing.
pub proof fn lemma_first_index_wf(lines: Seq<LineModel>, n: int)
    requires
        lines_wf(lines),
    ensures
        first_index_with(lines, n) == if 0 <= n < lines.len() {
            n
        } else {
            -1int
        },
{
    if 0 <= n < lines.len() {
        lemma_first_index_with_found(lines, n, n);
    } else {
        lemma_first_index_with_none(lines, n);
    }
}

/// The text of the line with number `n`; empty if there is none.
pub open spec fn text_of(lines: Seq<LineModel>, n: int) -> Seq<char> {
    let i = first_index_with(lines, n);
    if i < 0 {
        Seq::empty()
    } else {
        lines[i].text
    }
}

/// The length of the text of the line with number `n`; 0 if there is none.
pub open spec fn len_of(lines: Seq<LineModel>, n: int) -> int {
    text_of(lines, n).len() as int
}

/// The lines after the first line with number `n` got its text replaced by
/// `to`; unchanged if there is no such line.
pub open spec fn spec_change_line(lines: Seq<LineModel>, n: int, to: Seq<char>) -> Seq<LineModel> {
    let i = first_index_with(lines, n);
    if i < 0 {
        lines
    } else {
        lines.update(i, LineModel { number: lines[i].number, text: to })
    }
}

/// The lines after the first line with number `n` was removed; unchanged if
/// there is no such line.
pub open spec fn spec_remove_line(lines: Seq<LineModel>, n: int) -> Seq<LineModel> {
    let i = first_index_with(lines, n);
    if i < 0 {
        lines
    } else {
        lines.remove(i)
    }
}

/// The lines after every line with number `n` was removed.
pub open spec fn remove_all_with(lines: Seq<LineModel>, n: int) -> Seq<LineModel>
    decreases lines.len(),
{
    if lines.len() == 0 {
        Seq::empty()
    } else if lines[0].number == n {
        remove_all_with(lines.drop_first(), n)
    } else {
        seq![lines[0]] + remove_all_with(lines.drop_first(), n)
    }
}

/// The lines after the first line with number `old_n` got its number set to
/// `new_n`; unchanged if there is no such line.
pub open spec fn spec_set_line_number(lines: Seq<LineModel>, old_n: int, new_n: int) -> Seq<
    LineModel,
> {
    let i = first_index_with(lines, old_n);
    if i < 0 {
        lines
    } else {
        lines.update(i, LineModel { number: new_n, text: lines[i].text })
    }
}

/// Every line with a number above `n` steps down by one; the rest stay.
pub open spec fn shift_down_after(lines: Seq<LineModel>, n: int) -> Seq<LineModel> {
    Seq::new(
        lines.len(),
        |j: int|
            if lines[j].number > n {
                LineModel { number: lines[j].number - 1, text: lines[j].text }
            } else {
                lines[j]
            },
    )
}

/// Every line with a number above `n` (and below `cap`, the largest
/// representable number) steps up by one; the rest stay.
pub open spec fn shift_up_after(lines: Seq<LineModel>, n: int, cap: int) -> Seq<LineModel> {
    Seq::new(
        lines.len(),
        |j: int|
            if lines[j].number > n && lines[j].number < cap {
                LineModel { number: lines[j].number + 1, text: lines[j].text }
            } else {
                lines[j]
            },
    )
}

/// The larger of two numbers.
pub open spec fn max_of(a: int, b: int) -> int {
    if a >= b {
        a
    } else {
        b
    }
}

/// The largest line number present; -1 for an empty buffer.
pub open spec fn max_number(lines: Seq<LineModel>) -> int
    decreases lines.len(),
{
    if lines.len() == 0 {
        -1
    } else {
        let r = max_number(lines.drop_first());
        if lines[0].number > r {
            lines[0].number
        } else {
            r
        }
    }
}

/// The buffer after `parts` were pasted: each part becomes a new line
/// appended at the end, numbered one past the largest number present (so
/// the pasted lines are numbered consecutively). Appending stops where the
/// next number would not be representable.
pub open spec fn spec_paste(lines: Seq<LineModel>, parts: Seq<Seq<char>>) -> Seq<LineModel>
    decreases parts.len(),
{
    if parts.len() == 0 {
        lines
    } else {
        let m = max_number(lines);
        if m >= usize::MAX {
            lines
        } else {
            spec_paste(
                lines.push(LineModel { number: m + 1, text: parts[0] }),
                parts.drop_first(),
            )
        }
    }
}

/// What one line becomes when the span from `s` to `e` (already in reading
/// order, on distinct rows) is deleted. `first_empty` tells whether the
/// first row of the span kept no text and was removed, which decides the
/// number given to the trailing row.
pub open spec fn delete_span_line(l: LineModel, s: Point, e: Point, first_empty: bool) -> Option<
    LineModel,
> {
    if l.number < s.x || l.number > e.x {
        Some(l)
    } else if l.number == s.x {
        let keep = l.text.subrange(0, clamp(s.y as int, l.text.len() as int));
        if keep.len() == 0 {
            None
        } else {
            Some(LineModel { number: l.number, text: keep })
        }
    } else if l.number < e.x {
        None
    } else {
        let keep = l.text.subrange(clamp(e.y as int, l.text.len() as int), l.text.len() as int);
        if keep.len() == 0 {
            None
        } else {
            Some(
                LineModel {
                    number: if first_empty {
                        s.x as int
                    } else {
                        s.x as int + 1
                    },
                    text: keep,
                },
            )
        }
    }
}

/// Whether the first row of the span keeps no text when the span from `s`
/// to `e` is deleted: its prefix before `s.y` is empty, or the row is absent.
pub open spec fn first_row_empties(lines: Seq<LineModel>, s: Point) -> bool {
    first_index_with(lines, s.x as int) < 0 || clamp(
        s.y as int,
        text_of(lines, s.x as int).len() as int,
    ) == 0
}

/// Each line of the buffer mapped through `delete_span_line`, dropped lines
/// left out.
pub open spec fn delete_span_lines(
    lines: Seq<LineModel>,
    s: Point,
    e: Point,
    first_empty: bool,
) -> Seq<LineModel>
    decreases lines.len(),
{
    if lines.len() == 0 {
        Seq::empty()
    } else {
        let rest = delete_span_lines(lines.drop_first(), s, e, first_empty);
        match delete_span_line(lines[0], s, e, first_empty) {
            Some(l) => seq![l] + rest,
            None => rest,
        }
    }
}

/// The buffer after the selection from `a` to `b` is deleted. With both ends
/// on one row the whole row goes, whatever the columns; otherwise the first
/// row keeps the text before the selection, rows strictly inside go, and the
/// last row keeps the text after the selection and is renumbered to follow
/// the first row directly.
pub open spec fn spec_delete_selection(lines: Seq<LineModel>, a: Point, b: Point) -> Seq<
    LineModel,
> {
    let s = point_min(a, b);
    let e = point_max(a, b);
    if s.x == e.x {
        spec_remove_line(lines, s.x as int)
    } else {
        delete_span_lines(lines, s, e, first_row_empties(lines, s))
    }
}

/// The text of one row of an extraction from `s` to `e` (already in reading
/// order, on distinct rows): the tail of the first row, full middle rows,
/// the head of the last row.
pub open spec fn extract_row(lines: Seq<LineModel>, s: Point, e: Point, r: int) -> Seq<char> {
    let t = text_of(lines, r);
    if r == s.x {
        t.subrange(clamp(s.y as int, t.len() as int), t.len() as int)
    } else if r == e.x {
        t.subrange(0, clamp(e.y as int, t.len() as int))
    } else {
        t
    }
}

/// The rows of an extraction from `s` to `e`, in order, one text per row.
pub open spec fn extract_rows(lines: Seq<LineModel>, s: Point, e: Point) -> Seq<Seq<char>> {
    Seq::new((e.x - s.x + 1) as nat, |k: int| extract_row(lines, s, e, s.x + k))
}

/// The text a selection from `a` to `b` encloses. The ends are first put in
/// reading order. Within one row it is the span between the columns; across
/// rows it is the tail of the first row, the middle rows whole, and the head
/// of the last row, joined with newlines.
pub open spec fn spec_extract_selection(lines: Seq<LineModel>, a: Point, b: Point) -> Seq<char> {
    let s = point_min(a, b);
    let e = point_max(a, b);
    if s.x == e.x {
        let t = text_of(lines, s.x as int);
        let lo = clamp(s.y as int, t.len() as int);
        let hi = clamp(e.y as int, t.len() as int);
        if lo <= hi {
            t.subrange(lo, hi)
        } else {
            t.subrange(hi, lo)
        }
    } else {
        join_newlines(extract_rows(lines, s, e))
    }
}

/// The whole buffer as one text: the line texts in order, joined with
/// newlines.
pub open spec fn buffer_text(lines: Seq<LineModel>) -> Seq<char> {
    join_newlines(Seq::new(lines.len(), |j: int| lines[j].text))
}

/// Extraction reads the selection the same whichever way round its two ends
/// are stored: swapping start and end changes nothing.
pub proof fn lemma_extract_selection_symmetric(lines: Seq<LineModel>, a: Point, b: Point)
    ensures
        spec_extract_selection(lines, a, b) == spec_extract_selection(lines, b, a),
{
}

/// Deletion likewise does not care which way round the ends are stored.
pub proof fn lemma_delete_selection_symmetric(lines: Seq<LineModel>, a: Point, b: Point)
    ensures
        spec_delete_selection(lines, a, b) == spec_delete_selection(lines, b, a),
{
}

} // verus!
