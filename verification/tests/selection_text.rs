use terminal::selection_text::{
    is_whitespace_char, selection_text_from_term, GridPoint, SelectionCell, SelectionKind,
    SelectionRow, SelectionSpan, TerminalSnapshot,
};

fn cell(c: char) -> SelectionCell {
    SelectionCell {
        c,
        zerowidth: Vec::new(),
        wide_char_spacer: false,
        leading_wide_char_spacer: false,
        wrapline: false,
    }
}

/// A row holding `text` from the first column, padded with blanks; a wrapped
/// row is occupied to its end, another up to its last non-blank cell.
fn row(text: &str, columns: usize, wrapped: bool) -> SelectionRow {
    let mut cells: Vec<SelectionCell> = text.chars().map(cell).collect();
    while cells.len() < columns {
        cells.push(cell(' '));
    }
    if wrapped {
        cells[columns - 1].wrapline = true;
    }
    let line_length = if wrapped {
        columns
    } else {
        cells.iter().rposition(|cell| cell.c != ' ').map_or(0, |index| index + 1)
    };
    SelectionRow { cells, line_length }
}

fn point(line: i32, column: usize) -> GridPoint {
    GridPoint { line, column }
}

fn screen(rows: Vec<SelectionRow>, columns: usize, kind: SelectionKind, start: GridPoint, end: GridPoint) -> TerminalSnapshot {
    let mut rows = rows;
    while rows.len() < 4 {
        rows.push(row("", columns, false));
    }
    TerminalSnapshot {
        columns,
        top_line: 0,
        rows,
        selection: Some(SelectionSpan { kind, start, end }),
    }
}

fn simple(rows: Vec<SelectionRow>, columns: usize, start: GridPoint, end: GridPoint) -> Option<String> {
    selection_text_from_term(&screen(rows, columns, SelectionKind::Simple, start, end))
}

#[test]
fn clipboard_selection_expands_tabs_to_visual_spaces() {
    // "A\tB": the tab sits in its first cell, the cursor moves on to column 8.
    assert_eq!(
        Some("A       B".to_string()),
        simple(vec![row("A\t      B", 16, false)], 16, point(0, 0), point(0, 8))
    );
}

#[test]
fn clipboard_selection_expands_tabs_from_the_current_column() {
    assert_eq!(
        Some("AB      C".to_string()),
        simple(vec![row("AB\t     C", 16, false)], 16, point(0, 0), point(0, 8))
    );
}

#[test]
fn clipboard_selection_preserves_existing_spaces() {
    assert_eq!(
        Some("A   B".to_string()),
        simple(vec![row("A   B", 16, false)], 16, point(0, 0), point(0, 4))
    );
}

#[test]
fn clipboard_selection_preserves_hard_line_breaks() {
    assert_eq!(
        Some("foo\nbar".to_string()),
        simple(
            vec![row("foo", 16, false), row("bar", 16, false)],
            16,
            point(0, 0),
            point(1, 2)
        )
    );
}

#[test]
fn clipboard_selection_does_not_add_breaks_for_wrapped_lines() {
    assert_eq!(
        Some("abcdefgh".to_string()),
        simple(
            vec![row("abcd", 4, true), row("efgh", 4, false)],
            4,
            point(0, 0),
            point(1, 3)
        )
    );
}

#[test]
fn no_selection_gives_no_text() {
    let mut term = screen(vec![row("abc", 8, false)], 8, SelectionKind::Simple, point(0, 0), point(0, 2));
    term.selection = None;
    assert_eq!(selection_text_from_term(&term), None);
}

#[test]
fn line_selection_ends_with_a_line_break() {
    assert_eq!(
        selection_text_from_term(&screen(
            vec![row("foo", 8, false), row("bar", 8, false)],
            8,
            SelectionKind::Lines,
            point(0, 0),
            point(1, 7)
        )),
        Some("foo\nbar\n".to_string())
    );
}

#[test]
fn block_selection_trims_each_row_and_joins_them() {
    assert_eq!(
        selection_text_from_term(&screen(
            vec![row("a bc  x", 8, false), row("d ef  y", 8, false)],
            8,
            SelectionKind::Block,
            point(0, 1),
            point(1, 4)
        )),
        Some(" bc\n ef".to_string())
    );
}

#[test]
fn wide_characters_are_copied_once_with_their_zero_width_marks() {
    let mut wide = row("\u{4e2d}  x", 8, false);
    wide.cells[1].wide_char_spacer = true;
    wide.cells[3].zerowidth = vec!['\u{301}'];
    // Starting on the spacer moves the start onto the wide character.
    assert_eq!(
        simple(vec![wide], 8, point(0, 1), point(0, 3)),
        Some("\u{4e2d} x\u{301}".to_string())
    );
}

#[test]
fn a_wide_character_wrapped_to_the_next_row_is_taken_from_above() {
    let mut first = row("abc", 4, true);
    first.cells[3].leading_wide_char_spacer = true;
    let second = row("XY", 4, false);
    let history = row("zzzz", 4, false);
    let term = TerminalSnapshot {
        columns: 4,
        top_line: -1,
        rows: vec![history, first, second],
        selection: Some(SelectionSpan {
            kind: SelectionKind::Simple,
            start: point(0, 0),
            end: point(0, 3),
        }),
    };
    // The row ends in a leading spacer; the character is read from the row
    // above, as the terminal emulator does.
    assert_eq!(selection_text_from_term(&term), Some("abcz".to_string()));
}

#[test]
fn white_space_follows_the_unicode_property() {
    for c in [' ', '\t', '\n', '\r', '\u{b}', '\u{c}', '\u{85}', '\u{a0}', '\u{1680}', '\u{2000}', '\u{200a}', '\u{2028}', '\u{2029}', '\u{202f}', '\u{205f}', '\u{3000}'] {
        assert!(is_whitespace_char(c), "{c:?}");
        assert_eq!(is_whitespace_char(c), c.is_whitespace());
    }
    for c in ['a', '\0', '\u{200b}', '\u{feff}', '\u{180e}'] {
        assert!(!is_whitespace_char(c), "{c:?}");
        assert_eq!(is_whitespace_char(c), c.is_whitespace());
    }
}
