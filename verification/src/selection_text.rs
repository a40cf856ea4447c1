//! Clipboard text of a terminal selection.
//!
//! The terminal grid is described by plain values: per row its cells (the
//! character, the zero-width characters drawn with it and the wide-character
//! flags) and the length of its occupied part as the terminal emulator
//! computes it. The text follows the grid's visual columns: tabs become
//! single spaces in their cell, wide-character spacers are skipped, and a
//! line break is added only where a line was not wrapped.

use vstd::prelude::*;
use crate::text::string_from_chars;

verus! {

/// One grid cell.
#[derive(Clone, Debug, PartialEq, Eq)]
pub struct SelectionCell {
    pub c: char,
    /// Zero-width characters drawn over `c`.
    pub zerowidth: Vec<char>,
    /// The cell right of a wide character, which the character covers.
    pub wide_char_spacer: bool,
    /// The last cell of a row whose wide character did not fit and went on
    /// to the next row.
    pub leading_wide_char_spacer: bool,
    /// The row goes on in the next one (set on the row's last cell).
    pub wrapline: bool,
}

/// One grid row and the length of its occupied part.
#[derive(Clone, Debug, PartialEq, Eq)]
pub struct SelectionRow {
    pub cells: Vec<SelectionCell>,
    pub line_length: usize,
}

/// A grid position: lines count from the top of the screen (history lines
/// are negative), columns from the left.
#[derive(Clone, Copy, Debug, PartialEq, Eq, Structural)]
pub struct GridPoint {
    pub line: i32,
    pub column: usize,
}

#[derive(Clone, Copy, Debug, PartialEq, Eq, Structural)]
pub enum SelectionKind {
    Simple,
    Block,
    Semantic,
    Lines,
}

/// A selection, resolved to its first and last selected cell.
#[derive(Clone, Copy, Debug, PartialEq, Eq, Structural)]
pub struct SelectionSpan {
    pub kind: SelectionKind,
    pub start: GridPoint,
    pub end: GridPoint,
}

/// The terminal as the selection sees it: the rows from `top_line` down,
/// the column count, and the resolved selection if there is one.
#[derive(Clone, Debug, PartialEq, Eq)]
pub struct TerminalSnapshot {
    pub columns: usize,
    pub top_line: i32,
    pub rows: Vec<SelectionRow>,
    pub selection: Option<SelectionSpan>,
}

/// The grid's own invariants: full rows, occupied lengths within the row, no
/// spacer in the first column, and no wide character wrapped in from above
/// the oldest row.
pub open spec fn grid_wf(term: TerminalSnapshot) -> bool {
    &&& term.columns >= 1
    &&& term.top_line + term.rows@.len() <= i32::MAX
    &&& forall|i: int|
        0 <= i < term.rows@.len() ==> {
            &&& (#[trigger] term.rows@[i]).cells@.len() == term.columns
            &&& term.rows@[i].line_length <= term.columns
            &&& !term.rows@[i].cells@[0].wide_char_spacer
        }
    &&& term.rows@.len() > 0 ==> !term.rows@[0].cells@[term.columns - 1].leading_wide_char_spacer
}

/// A selection inside the grid, its start not after its end.
pub open spec fn span_wf(term: TerminalSnapshot, span: SelectionSpan) -> bool {
    &&& term.top_line <= span.start.line <= span.end.line
    &&& span.end.line < term.top_line + term.rows@.len()
    &&& span.start.column < term.columns
    &&& span.end.column < term.columns
}

pub open spec fn row_at(term: TerminalSnapshot, line: int) -> SelectionRow {
    term.rows@[line - term.top_line]
}

/// The text a cell contributes: nothing for a spacer, a space for a tab,
/// else its character and its zero-width characters.
pub open spec fn cell_text(cell: SelectionCell) -> Seq<char> {
    if cell.wide_char_spacer || cell.leading_wide_char_spacer {
        Seq::empty()
    } else {
        seq![if cell.c == '\t' { ' ' } else { cell.c }] + cell.zerowidth@
    }
}

/// The text of the cells `from..to`.
pub open spec fn cells_text(cells: Seq<SelectionCell>, from: int, to: int) -> Seq<char>
    decreases to - from,
{
    if to <= from {
        Seq::empty()
    } else {
        cells_text(cells, from, to - 1) + cell_text(cells[to - 1])
    }
}

pub open spec fn min_nat(a: int, b: int) -> int {
    if a <= b {
        a
    } else {
        b
    }
}

/// The selected text of one row, columns `start..=end`: from the start
/// (moved left onto a wide character whose spacer it hits) to the end of
/// the occupied part; a line break when the selection reaches the last
/// column of a row that is not wrapped; and the wide character that went on
/// from a row ending in a leading spacer, where asked for.
pub open spec fn visual_line(term: TerminalSnapshot, line: int, start: int, end: int, include_wrapped_wide: bool) -> Seq<char> {
    let row = row_at(term, line);
    let line_length = min_nat(row.line_length as int, end + 1);
    let first = if row.cells@[start].wide_char_spacer {
        start - 1
    } else {
        start
    };
    let body = cells_text(row.cells@, first, line_length);
    let broken = if end >= term.columns - 1 && (line_length == 0 || !row.cells@[line_length - 1].wrapline) {
        body.push('\n')
    } else {
        body
    };
    if line_length == term.columns && line_length >= 2 && row.cells@[line_length - 1].leading_wide_char_spacer
        && include_wrapped_wide {
        broken.push(row_at(term, line - 1).cells@[0].c)
    } else {
        broken
    }
}

/// The text of row `line` within a selection from `start` to `end`.
pub open spec fn bounds_line(term: TerminalSnapshot, start: GridPoint, end: GridPoint, line: int) -> Seq<char> {
    let first = if line == start.line {
        start.column as int
    } else {
        0
    };
    let last = if line == end.line {
        end.column as int
    } else {
        term.columns - 1
    };
    visual_line(term, line, first, last, line == end.line)
}

/// The texts of rows `start.line..upto`, one after the other.
pub open spec fn bounds_lines(term: TerminalSnapshot, start: GridPoint, end: GridPoint, upto: int) -> Seq<char>
    decreases upto - start.line,
{
    if upto <= start.line {
        Seq::empty()
    } else {
        bounds_lines(term, start, end, upto - 1) + bounds_line(term, start, end, upto - 1)
    }
}

/// `text` without one final line break.
pub open spec fn without_final_break(text: Seq<char>) -> Seq<char> {
    if text.len() > 0 && text.last() == '\n' {
        text.drop_last()
    } else {
        text
    }
}

/// The text of a stream selection from `start` to `end`.
pub open spec fn bounds_text(term: TerminalSnapshot, start: GridPoint, end: GridPoint) -> Seq<char> {
    without_final_break(bounds_lines(term, start, end, end.line + 1))
}

/// Whether `c` has the Unicode White_Space property (`char::is_whitespace`).
pub open spec fn is_white_space(c: char) -> bool {
    let v = c as u32;
    ||| v == 0x20
    ||| (0x09 <= v && v <= 0x0d)
    ||| v == 0x85
    ||| v == 0xa0
    ||| v == 0x1680
    ||| (0x2000 <= v && v <= 0x200a)
    ||| v == 0x2028
    ||| v == 0x2029
    ||| v == 0x202f
    ||| v == 0x205f
    ||| v == 0x3000
}

/// `text` without its trailing white space (`str::trim_end`).
pub open spec fn trim_end(text: Seq<char>) -> Seq<char>
    decreases text.len(),
{
    if text.len() > 0 && is_white_space(text.last()) {
        trim_end(text.drop_last())
    } else {
        text
    }
}

/// The rows `start.line..upto` of a block selection, each trimmed and
/// followed by a line break.
pub open spec fn block_lines(term: TerminalSnapshot, start: GridPoint, end: GridPoint, upto: int) -> Seq<char>
    decreases upto - start.line,
{
    if upto <= start.line {
        Seq::empty()
    } else {
        block_lines(term, start, end, upto - 1) + trim_end(
            visual_line(term, upto - 1, start.column as int, end.column as int, start.column != 0),
        ).push('\n')
    }
}

/// The text of a block selection: the same columns of every row, each row
/// trimmed, joined by line breaks.
pub open spec fn block_text(term: TerminalSnapshot, start: GridPoint, end: GridPoint) -> Seq<char> {
    block_lines(term, start, end, end.line as int) + trim_end(
        visual_line(term, end.line as int, start.column as int, end.column as int, true),
    )
}

/// The clipboard text of a selection.
pub open spec fn selection_text(term: TerminalSnapshot, span: SelectionSpan) -> Seq<char> {
    match span.kind {
        SelectionKind::Block => block_text(term, span.start, span.end),
        SelectionKind::Lines => bounds_text(term, span.start, span.end).push('\n'),
        _ => bounds_text(term, span.start, span.end),
    }
}

pub fn is_whitespace_char(c: char) -> (r: bool)
    ensures
        r == is_white_space(c),
{
    let v = c as u32;
    v == 0x20 || (0x09 <= v && v <= 0x0d) || v == 0x85 || v == 0xa0 || v == 0x1680 || (0x2000 <= v && v
        <= 0x200a) || v == 0x2028 || v == 0x2029 || v == 0x202f || v == 0x205f || v == 0x3000
}

fn trim_end_chars(text: &mut Vec<char>)
    ensures
        final(text)@ == trim_end(old(text)@),
    decreases old(text)@.len(),
{
    if text.len() > 0 && is_whitespace_char(text[text.len() - 1]) {
        proof {
            assert(text@.drop_last() == text@.subrange(0, text@.len() - 1));
        }
        text.pop();
        trim_end_chars(text);
    }
}

fn push_cell(out: &mut Vec<char>, cell: &SelectionCell)
    ensures
        final(out)@ == old(out)@ + cell_text(*cell),
{
    if cell.wide_char_spacer || cell.leading_wide_char_spacer {
        assert(old(out)@ + cell_text(*cell) == old(out)@);
        return;
    }
    out.push(if cell.c == '\t' { ' ' } else { cell.c });
    let mut k: usize = 0;
    while k < cell.zerowidth.len()
        invariant
            k <= cell.zerowidth@.len(),
            out@ == old(out)@ + seq![if cell.c == '\t' { ' ' } else { cell.c }] + cell.zerowidth@.take(k as int),
        decreases cell.zerowidth@.len() - k,
    {
        out.push(cell.zerowidth[k]);
        proof {
            assert(cell.zerowidth@.take(k + 1) == cell.zerowidth@.take(k as int).push(cell.zerowidth@[k as int]));
        }
        k = k + 1;
    }
    assert(cell.zerowidth@.take(k as int) == cell.zerowidth@);
}

fn row_index(term: &TerminalSnapshot, line: i32) -> (r: usize)
    requires
        term.top_line <= line < term.top_line + term.rows@.len(),
    ensures
        r == line - term.top_line,
        r < term.rows@.len(),
{
    ((line as i64) - (term.top_line as i64)) as usize
}

/// Appends the selected text of row `line`, columns `start..=end`.
fn push_visual_line(out: &mut Vec<char>, term: &TerminalSnapshot, line: i32, start: usize, end: usize, include_wrapped_wide: bool)
    requires
        grid_wf(*term),
        term.top_line <= line < term.top_line + term.rows@.len(),
        start < term.columns,
        end < term.columns,
    ensures
        final(out)@ == old(out)@ + visual_line(*term, line as int, start as int, end as int, include_wrapped_wide),
{
    let index = row_index(term, line);
    let row = &term.rows[index];
    assert(row.cells@.len() == term.columns && row.line_length <= term.columns && !row.cells@[0].wide_char_spacer) by {
        assert(term.rows@[index as int] == *row);
    }
    let line_length = if row.line_length <= end + 1 {
        row.line_length
    } else {
        end + 1
    };
    let first = if row.cells[start].wide_char_spacer {
        start - 1
    } else {
        start
    };
    let ghost before = out@;
    let mut column = first;
    while column < line_length
        invariant
            first <= line_length ==> first <= column <= line_length,
            first > line_length ==> column == first,
            line_length <= row.cells@.len(),
            out@ == before + cells_text(row.cells@, first as int, column as int),
        decreases line_length - column,
    {
        push_cell(out, &row.cells[column]);
        column = column + 1;
    }
    proof {
        if first > line_length {
            assert(cells_text(row.cells@, first as int, line_length as int) == Seq::<char>::empty());
        }
    }
    assert(out@ == before + cells_text(row.cells@, first as int, line_length as int));
    if end >= term.columns - 1 && (line_length == 0 || !row.cells[line_length - 1].wrapline) {
        out.push('\n');
    }
    if line_length == term.columns && line_length >= 2 && row.cells[line_length - 1].leading_wide_char_spacer
        && include_wrapped_wide {
        proof {
            if index == 0 {
                assert(term.rows@[0] == *row);
            }
        }
        let above = row_index(term, line - 1);
        let above_row = &term.rows[above];
        assert(above_row.cells@.len() == term.columns) by {
            assert(term.rows@[above as int] == *above_row);
        }
        out.push(above_row.cells[0].c);
    }
}

/// The text of a stream selection from `start` to `end`.
fn stream_text(term: &TerminalSnapshot, start: GridPoint, end: GridPoint) -> (r: Vec<char>)
    requires
        grid_wf(*term),
        span_wf(*term, (SelectionSpan { kind: SelectionKind::Simple, start, end })),
    ensures
        r@ == bounds_text(*term, start, end),
{
    let mut text: Vec<char> = Vec::new();
    let mut line = start.line;
    while line <= end.line
        invariant
            grid_wf(*term),
            span_wf(*term, (SelectionSpan { kind: SelectionKind::Simple, start, end })),
            start.line <= line <= end.line + 1,
            text@ == bounds_lines(*term, start, end, line as int),
        decreases end.line + 1 - line,
    {
        let first = if line == start.line {
            start.column
        } else {
            0
        };
        let last = if line == end.line {
            end.column
        } else {
            term.columns - 1
        };
        push_visual_line(&mut text, term, line, first, last, line == end.line);
        line = line + 1;
    }
    if text.len() > 0 && text[text.len() - 1] == '\n' {
        proof {
            assert(text@.drop_last() == text@.subrange(0, text@.len() - 1));
        }
        text.pop();
    }
    text
}

/// The text of a block selection from `start` to `end`.
fn block_selection_text(term: &TerminalSnapshot, start: GridPoint, end: GridPoint) -> (r: Vec<char>)
    requires
        grid_wf(*term),
        span_wf(*term, (SelectionSpan { kind: SelectionKind::Block, start, end })),
    ensures
        r@ == block_text(*term, start, end),
{
    let mut text: Vec<char> = Vec::new();
    let mut line = start.line;
    while line < end.line
        invariant
            grid_wf(*term),
            span_wf(*term, (SelectionSpan { kind: SelectionKind::Block, start, end })),
            start.line <= line <= end.line,
            text@ == block_lines(*term, start, end, line as int),
        decreases end.line - line,
    {
        let mut row_text: Vec<char> = Vec::new();
        push_visual_line(&mut row_text, term, line, start.column, end.column, start.column != 0);
        assert(row_text@ == visual_line(*term, line as int, start.column as int, end.column as int, start.column != 0));
        trim_end_chars(&mut row_text);
        row_text.push('\n');
        text.append(&mut row_text);
        line = line + 1;
    }
    let mut last_text: Vec<char> = Vec::new();
    push_visual_line(&mut last_text, term, end.line, start.column, end.column, true);
    assert(last_text@ == visual_line(*term, end.line as int, start.column as int, end.column as int, true));
    trim_end_chars(&mut last_text);
    text.append(&mut last_text);
    text
}

/// The clipboard text of the terminal's selection; `None` without one.
pub fn selection_text_from_term(term: &TerminalSnapshot) -> (r: Option<String>)
    requires
        grid_wf(*term),
        term.selection matches Some(span) ==> span_wf(*term, span),
    ensures
        match term.selection {
            Some(span) => r matches Some(text) && text@ == selection_text(*term, span),
            None => r is None,
        },
{
    let span = match term.selection {
        Some(span) => span,
        None => return None,
    };
    let chars = match span.kind {
        SelectionKind::Block => block_selection_text(term, span.start, span.end),
        SelectionKind::Lines => {
            let mut text = stream_text(term, span.start, span.end);
            text.push('\n');
            text
        },
        SelectionKind::Simple | SelectionKind::Semantic => stream_text(term, span.start, span.end),
    };
    Some(string_from_chars(chars.as_slice()))
}

/// In a stream selection every row after the start row is taken whole from
/// its first column: two selections that start on the same row and end at
/// the same place give the same text after the start row, whatever their
/// start columns; only the start row's own text depends on the start column.
pub proof fn lemma_rows_after_start_ignore_start_column(
    term: TerminalSnapshot,
    a: GridPoint,
    b: GridPoint,
    end: GridPoint,
    upto: int,
)
    requires
        a.line == b.line,
        a.line < upto,
    ensures
        bounds_lines(term, a, end, a.line + 1).len() <= bounds_lines(term, a, end, upto).len(),
        bounds_lines(term, b, end, b.line + 1).len() <= bounds_lines(term, b, end, upto).len(),
        bounds_lines(term, a, end, upto).take(bounds_lines(term, a, end, a.line + 1).len() as int)
            == bounds_lines(term, a, end, a.line + 1),
        bounds_lines(term, a, end, upto).skip(bounds_lines(term, a, end, a.line + 1).len() as int)
            == bounds_lines(term, b, end, upto).skip(bounds_lines(term, b, end, b.line + 1).len() as int),
    decreases upto - a.line,
{
    let la = bounds_lines(term, a, end, a.line + 1).len() as int;
    let lb = bounds_lines(term, b, end, b.line + 1).len() as int;
    if upto > a.line + 1 {
        lemma_rows_after_start_ignore_start_column(term, a, b, end, upto - 1);
        let pa = bounds_lines(term, a, end, upto - 1);
        let pb = bounds_lines(term, b, end, upto - 1);
        assert(bounds_line(term, a, end, upto - 1) == bounds_line(term, b, end, upto - 1));
        let row = bounds_line(term, a, end, upto - 1);
        assert((pa + row).skip(la) =~= pa.skip(la) + row);
        assert((pb + row).skip(lb) =~= pb.skip(lb) + row);
        assert((pa + row).take(la) =~= pa.take(la));
    } else {
        assert(bounds_lines(term, a, end, upto).skip(la) =~= Seq::<char>::empty());
        assert(bounds_lines(term, b, end, upto).skip(lb) =~= Seq::<char>::empty());
        assert(bounds_lines(term, a, end, upto).take(la) =~= bounds_lines(term, a, end, upto));
    }
}

/// In a stream selection every row before the end row is taken to the last
/// column: two selections with the same start that end on the same row give
/// the same text for all rows before that row, whatever their end columns.
pub proof fn lemma_rows_before_end_ignore_end_column(
    term: TerminalSnapshot,
    start: GridPoint,
    a: GridPoint,
    b: GridPoint,
    upto: int,
)
    requires
        a.line == b.line,
        upto <= a.line,
    ensures
        bounds_lines(term, start, a, upto) == bounds_lines(term, start, b, upto),
    decreases upto - start.line,
{
    if upto > start.line {
        lemma_rows_before_end_ignore_end_column(term, start, a, b, upto - 1);
        assert(bounds_line(term, start, a, upto - 1) == bounds_line(term, start, b, upto - 1));
    }
}

} // verus!
