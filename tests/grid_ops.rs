use nvim_grid::events::{GridCell, GridLine, GridScroll, NvimEvent};
use nvim_grid::grid::{expanded_len, line_fits, new_grid, scroll_region, write_line, Grid, TextCell};
use nvim_grid::state::{Outcome, UiState};

fn run(text: &str, highlight: i64, repeat: i64) -> GridCell {
    GridCell { text: text.to_string(), highlight, repeat }
}

fn line(row: i64, col: i64, cells: Vec<GridCell>) -> GridLine {
    GridLine { grid: 1, row, col, cells }
}

fn row_text(g: &Grid, r: usize) -> String {
    g[r].iter().map(|c| c.text.as_str()).collect::<Vec<_>>().concat()
}

fn labelled(rows: usize, cols: usize) -> Grid {
    let mut g = new_grid(cols, rows);
    for r in 0..rows {
        for c in 0..cols {
            g[r][c] = TextCell { text: format!("{}", r), hl_id: (r * 10 + c) as i64 };
        }
    }
    g
}

fn is_blank(c: &TextCell) -> bool {
    c.text == " " && c.hl_id == 0
}

#[test]
fn new_grid_is_blank_with_dimensions() {
    let g = new_grid(4, 2);
    assert_eq!(g.len(), 2);
    assert!(g.iter().all(|r| r.len() == 4 && r.iter().all(is_blank)));
    let c = TextCell::new();
    assert_eq!(c.text, " ");
    assert_eq!(c.hl_id, 0);
}

#[test]
fn empty_grid_has_no_rows() {
    let g = new_grid(5, 0);
    assert!(g.is_empty());
}

#[test]
fn line_expands_runs_left_to_right() {
    let mut g = new_grid(10, 2);
    write_line(&mut g, &line(1, 2, vec![run("a", 3, 2), run("b", 4, 1), run("c", 5, 3)]));
    assert_eq!(row_text(&g, 1), "  aabccc  ");
    let ids: Vec<i64> = g[1].iter().map(|c| c.hl_id).collect();
    assert_eq!(ids, vec![0, 0, 3, 3, 4, 5, 5, 5, 0, 0]);
    assert_eq!(row_text(&g, 0), "          ");
}

#[test]
fn zero_and_negative_repeats_write_nothing() {
    let mut g = new_grid(4, 1);
    write_line(&mut g, &line(0, 0, vec![run("x", 1, 0), run("y", 1, -2), run("z", 1, 1)]));
    assert_eq!(row_text(&g, 0), "z   ");
}

#[test]
fn line_past_last_column_is_clipped() {
    let mut g = new_grid(80, 3);
    write_line(&mut g, &line(1, 79, vec![run("x", 7, 5)]));
    assert_eq!(g[1][79].text, "x");
    assert_eq!(g[1][79].hl_id, 7);
    assert!(g[1][..79].iter().all(is_blank));
    assert!(g[0].iter().all(is_blank));
    assert!(g[2].iter().all(is_blank));
    assert_eq!(g[1].len(), 80);
}

#[test]
fn line_on_missing_row_or_before_start_is_dropped() {
    let mut g = new_grid(4, 2);
    write_line(&mut g, &line(5, 0, vec![run("x", 1, 2)]));
    write_line(&mut g, &line(-1, 0, vec![run("x", 1, 2)]));
    assert!(g.iter().all(|r| r.iter().all(is_blank)));
    write_line(&mut g, &line(0, -2, vec![run("x", 1, 3), run("y", 2, 1)]));
    assert_eq!(row_text(&g, 0), "xy  ");
}

#[test]
fn scroll_up_moves_rows_and_blanks_bottom() {
    let mut g = labelled(5, 3);
    let s = GridScroll { grid: 1, top: 1, bot: 5, left: 0, right: 3, rows: 2, cols: 0 };
    scroll_region(&mut g, 3, &s);
    assert_eq!(row_text(&g, 0), "222");
    assert_eq!(row_text(&g, 1), "333");
    assert_eq!(row_text(&g, 2), "444");
    assert!(g[3].iter().all(is_blank));
    assert!(g[4].iter().all(is_blank));
    assert_eq!(g[1][2].hl_id, 32);
}

#[test]
fn scroll_down_moves_rows_and_blanks_top() {
    let mut g = labelled(5, 3);
    let s = GridScroll { grid: 1, top: 0, bot: 4, left: 0, right: 3, rows: -1, cols: 0 };
    scroll_region(&mut g, 3, &s);
    assert!(g[0].iter().all(is_blank));
    assert_eq!(row_text(&g, 1), "000");
    assert_eq!(row_text(&g, 2), "111");
    assert_eq!(row_text(&g, 3), "222");
    assert_eq!(row_text(&g, 4), "333");
}

#[test]
fn scroll_only_touches_region_columns() {
    let mut g = labelled(3, 4);
    let s = GridScroll { grid: 1, top: 0, bot: 3, left: 1, right: 3, rows: 1, cols: 0 };
    scroll_region(&mut g, 4, &s);
    assert_eq!(row_text(&g, 0), "0110");
    assert_eq!(row_text(&g, 1), "1221");
    assert_eq!(g[2][0].text, "2");
    assert!(is_blank(&g[2][1]) && is_blank(&g[2][2]));
    assert_eq!(g[2][3].text, "2");
}

#[test]
fn scroll_region_outside_grid_is_clipped() {
    let mut g = labelled(3, 2);
    let s = GridScroll { grid: 1, top: -4, bot: 99, left: -1, right: 50, rows: 1, cols: 0 };
    scroll_region(&mut g, 2, &s);
    assert_eq!(row_text(&g, 0), "11");
    assert_eq!(row_text(&g, 1), "22");
    assert!(g[2].iter().all(is_blank));
}

#[test]
fn scroll_by_zero_changes_nothing() {
    let mut g = labelled(3, 2);
    let s = GridScroll { grid: 1, top: 0, bot: 3, left: 0, right: 2, rows: 0, cols: 0 };
    scroll_region(&mut g, 2, &s);
    for r in 0..3 {
        assert_eq!(row_text(&g, r), format!("{}{}", r, r));
    }
}

#[test]
fn scroll_up_then_down_restores_unvacated_rows() {
    let mut g = labelled(6, 2);
    let up = GridScroll { grid: 1, top: 1, bot: 6, left: 0, right: 2, rows: 2, cols: 0 };
    let down = GridScroll { rows: -2, ..up };
    scroll_region(&mut g, 2, &up);
    scroll_region(&mut g, 2, &down);
    for r in 3..6 {
        assert_eq!(row_text(&g, r), format!("{}{}", r, r));
        assert_eq!(g[r][1].hl_id, (r * 10 + 1) as i64);
    }
    assert!(g[1].iter().all(is_blank));
    assert!(g[2].iter().all(is_blank));
}

#[test]
fn resize_then_clear_gives_blank_grid() {
    let mut s = UiState::new(4, 2);
    s.apply(&NvimEvent::GridLine(vec![line(0, 0, vec![run("q", 2, 4)])]));
    assert_eq!(s.apply(&NvimEvent::GridResize { grid: 1, cols: 6, rows: 3 }), Outcome::Pending);
    s.apply(&NvimEvent::GridLine(vec![line(2, 1, vec![run("w", 2, 3)])]));
    assert_eq!(s.apply(&NvimEvent::GridClear(1)), Outcome::Pending);
    assert_eq!((s.rows, s.cols), (3, 6));
    assert_eq!(s.grid.len(), 3);
    assert!(s.grid.iter().all(|r| r.len() == 6 && r.iter().all(is_blank)));
}

#[test]
fn negative_resize_gives_empty_grid() {
    let mut s = UiState::new(4, 2);
    s.apply(&NvimEvent::GridResize { grid: 1, cols: -3, rows: 2 });
    assert_eq!((s.rows, s.cols), (2, 0));
    assert!(s.grid.iter().all(|r| r.is_empty()));
}

#[test]
fn flush_close_and_state_updates() {
    let mut s = UiState::new(3, 3);
    assert_eq!(s.apply(&NvimEvent::Flush), Outcome::Redraw);
    assert_eq!(s.apply(&NvimEvent::GridCursorGoto(1, 2, 1)), Outcome::Pending);
    assert_eq!((s.cursor_row, s.cursor_col), (2, 1));
    s.apply(&NvimEvent::DefaultColorsSet { fg: 1, bg: 2, special: 3 });
    assert_eq!((s.colors.fg, s.colors.bg, s.colors.special), (1, 2, 3));
    s.apply(&NvimEvent::ModeChange(nvim_grid::events::NvimMode::Insert));
    assert_eq!(s.mode, nvim_grid::events::NvimMode::Insert);
    assert_eq!(s.apply(&NvimEvent::Close), Outcome::Quit);
}

#[test]
fn lines_of_one_event_apply_in_order() {
    let mut s = UiState::new(3, 1);
    s.apply(&NvimEvent::GridLine(vec![line(0, 0, vec![run("a", 1, 3)]), line(0, 1, vec![run("b", 2, 1)])]));
    assert_eq!(row_text(&s.grid, 0), "aba");
    assert_eq!(s.grid[0][1].hl_id, 2);
}

#[test]
fn clipped_writes_are_reported() {
    let mut s = UiState::new(80, 2);
    let out = s.apply(&NvimEvent::GridLine(vec![line(1, 79, vec![run("x", 7, 5)])]));
    assert_eq!(out, Outcome::Clipped);
    assert_eq!(s.grid[1][79].text, "x");
    assert!(s.grid[0].iter().all(is_blank));
    let fits = s.apply(&NvimEvent::GridLine(vec![line(1, 75, vec![run("y", 7, 5)])]));
    assert_eq!(fits, Outcome::Pending);
    let scroll = GridScroll { grid: 1, top: 0, bot: 5, left: 0, right: 80, rows: 1, cols: 0 };
    assert_eq!(s.apply(&NvimEvent::GridScroll(scroll)), Outcome::Clipped);
}

#[test]
fn line_fit_and_length() {
    let l = line(0, 2, vec![run("a", 1, 3), run("b", 1, -4), run("c", 1, 2)]);
    assert_eq!(expanded_len(&l), 5);
    assert!(line_fits(&l, 1, 7));
    assert!(!line_fits(&l, 1, 6));
    assert!(!line_fits(&l, 0, 7));
    assert!(line_fits(&line(9, -3, vec![run("a", 1, 0)]), 1, 1));
}

#[test]
fn batch_stops_at_close_and_reports() {
    let mut s = UiState::new(4, 1);
    let events = vec![
        NvimEvent::GridLine(vec![line(0, 3, vec![run("a", 1, 2)])]),
        NvimEvent::Flush,
        NvimEvent::Close,
        NvimEvent::GridClear(1),
    ];
    let r = s.apply_batch(&events);
    assert_eq!(r, nvim_grid::state::BatchOutcome { redraw: true, quit: true, clipped: true });
    assert_eq!(s.grid[0][3].text, "a");
    let quiet = s.apply_batch(&vec![NvimEvent::GridCursorGoto(1, 0, 1)]);
    assert_eq!(quiet, nvim_grid::state::BatchOutcome { redraw: false, quit: false, clipped: false });
    assert_eq!(s.grid[0][3].text, "a");
}
