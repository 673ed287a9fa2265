//! The character grid: cells, allocation and blanking.
use vstd::prelude::*;

use crate::events::{CellRun, GridLine, GridScroll, LineSpan};

verus! {

/// One grid position: the grapheme shown there and the highlight it refers to.
#[derive(Clone, Debug)]
pub struct TextCell {
    pub text: String,
    pub hl_id: i64,
}

/// A blank cell holds a single space and refers to highlight 0.
pub open spec fn is_blank(c: TextCell) -> bool {
    c.text@ == seq![' '] && c.hl_id == 0
}

impl TextCell {
    /// A blank cell.
    pub fn new() -> (r: TextCell)
        ensures
            is_blank(r),
    {
        let text = String::from_str(" ");
        proof {
            reveal_strlit(" ");
            assert(text@ =~= seq![' ']);
        }
        TextCell { text, hl_id: 0 }
    }

    /// A copy of this cell.
    pub fn duplicate(&self) -> (r: TextCell)
        ensures
            r == *self,
    {
        TextCell { text: self.text.clone(), hl_id: self.hl_id }
    }
}

/// Rows of cells, row-major.
pub type Grid = Vec<Vec<TextCell>>;

/// The grid as nested sequences.
pub open spec fn cells_of(g: &Grid) -> Seq<Seq<TextCell>> {
    g@.map_values(|row: Vec<TextCell>| row@)
}

/// `g` has `rows` rows of `cols` cells each.
pub open spec fn has_dims(g: &Grid, rows: int, cols: int) -> bool {
    &&& g@.len() == rows
    &&& forall|r: int| 0 <= r < rows ==> #[trigger] g@[r]@.len() == cols
}

/// Every cell of `g` is blank.
pub open spec fn all_blank(g: &Grid) -> bool {
    forall|r: int, c: int|
        0 <= r < g@.len() && 0 <= c < g@[r]@.len() ==> is_blank(#[trigger] g@[r]@[c])
}

/// A blank row of `cols` cells.
fn blank_row(cols: usize) -> (r: Vec<TextCell>)
    ensures
        r@.len() == cols,
        forall|c: int| 0 <= c < cols ==> is_blank(#[trigger] r@[c]),
{
    let mut row: Vec<TextCell> = Vec::with_capacity(cols);
    let mut i: usize = 0;
    while i < cols
        invariant
            i <= cols,
            row@.len() == i,
            forall|c: int| 0 <= c < i ==> is_blank(#[trigger] row@[c]),
        decreases cols - i,
    {
        row.push(TextCell::new());
        i = i + 1;
    }
    row
}

/// A grid of `rows` rows and `cols` columns, every cell blank.
pub fn new_grid(cols: usize, rows: usize) -> (g: Grid)
    ensures
        has_dims(&g, rows as int, cols as int),
        all_blank(&g),
{
    let mut g: Grid = Vec::with_capacity(rows);
    let mut i: usize = 0;
    while i < rows
        invariant
            i <= rows,
            has_dims(&g, i as int, cols as int),
            all_blank(&g),
        decreases rows - i,
    {
        g.push(blank_row(cols));
        i = i + 1;
    }
    g
}

/// `c` shows `text` under highlight `hl`.
pub open spec fn shows(c: TextCell, text: Seq<char>, hl: i64) -> bool {
    c.text@ == text && c.hl_id == hl
}

/// How many cells a run covers: its repeat count, or none when that is not
/// positive.
pub open spec fn run_len(run: CellRun) -> nat {
    if run.repeat > 0 {
        run.repeat as nat
    } else {
        0
    }
}

/// The cells that runs expand to, left to right: each run gives its text and
/// highlight `run_len` times.
pub open spec fn expand_runs(runs: Seq<CellRun>) -> Seq<(Seq<char>, i64)>
    decreases runs.len(),
{
    if runs.len() == 0 {
        seq![]
    } else {
        let last = runs.last();
        expand_runs(runs.drop_last()) + Seq::new(run_len(last), |k: int| (last.text, last.highlight))
    }
}

/// `post` is `pre` with the expansion of `line` written from `(line.row,
/// line.col)` rightwards; writes that fall outside the grid are dropped.
pub open spec fn line_written(
    pre: Seq<Seq<TextCell>>,
    post: Seq<Seq<TextCell>>,
    line: LineSpan,
) -> bool {
    let ex = expand_runs(line.cells);
    &&& post.len() == pre.len()
    &&& forall|r: int| 0 <= r < pre.len() ==> (#[trigger] post[r]).len() == pre[r].len()
    &&& forall|r: int, c: int|
        0 <= r < pre.len() && 0 <= c < pre[r].len() ==> {
            if r == line.row && line.col <= c < line.col + ex.len() {
                shows(#[trigger] post[r][c], ex[c - line.col].0, ex[c - line.col].1)
            } else {
                post[r][c] == pre[r][c]
            }
        }
}

/// Expanding a prefix of the runs gives a prefix of the whole expansion.
pub proof fn lemma_expand_prefix(runs: Seq<CellRun>, i: int)
    requires
        0 <= i <= runs.len(),
    ensures
        expand_runs(runs.take(i)).len() <= expand_runs(runs).len(),
        forall|k: int|
            0 <= k < expand_runs(runs.take(i)).len() ==> #[trigger] expand_runs(runs.take(i))[k]
                == expand_runs(runs)[k],
    decreases runs.len() - i,
{
    if i == runs.len() {
        assert(runs.take(i) =~= runs);
    } else {
        let shorter = runs.drop_last();
        lemma_expand_prefix(shorter, i);
        assert(shorter.take(i) =~= runs.take(i));
    }
}

/// Expanding one more run appends that run's cells.
proof fn lemma_expand_step(runs: Seq<CellRun>, i: int)
    requires
        0 <= i < runs.len(),
    ensures
        expand_runs(runs.take(i + 1)) == expand_runs(runs.take(i)) + Seq::new(
            run_len(runs[i]),
            |k: int| (runs[i].text, runs[i].highlight),
        ),
{
    assert(runs.take(i + 1).drop_last() =~= runs.take(i));
}

/// Some write of `line` falls outside a grid of `rows` rows of `cols` cells.
pub open spec fn line_clipped(rows: int, cols: int, line: LineSpan) -> bool {
    let n = expand_runs(line.cells).len();
    n > 0 && !(0 <= line.row < rows && 0 <= line.col && line.col + n <= cols)
}

/// The number of cells that `line` expands to.
pub fn expanded_len(line: &GridLine) -> (r: i128)
    ensures
        r == expand_runs(line@.cells).len(),
{
    let ghost runs = line@.cells;
    let mut total: i128 = 0;
    let mut i: usize = 0;
    proof {
        assert(runs.take(0) =~= Seq::<CellRun>::empty());
    }
    while i < line.cells.len()
        invariant
            runs == line@.cells,
            i <= runs.len(),
            0 <= total <= i * 0x7fff_ffff_ffff_ffff,
            total == expand_runs(runs.take(i as int)).len(),
        decreases runs.len() - i,
    {
        proof {
            lemma_expand_step(runs, i as int);
        }
        let repeat = line.cells[i].repeat;
        if repeat > 0 {
            total = total + repeat as i128;
        }
        i = i + 1;
    }
    proof {
        assert(runs.take(i as int) =~= runs);
    }
    total
}

/// Whether every write of `line` lands inside a grid of `rows` by `cols`.
pub fn line_fits(line: &GridLine, rows: usize, cols: usize) -> (r: bool)
    ensures
        r == !line_clipped(rows as int, cols as int, line@),
{
    let n = expanded_len(line);
    n == 0 || (0 <= line.row && (line.row as i128) < rows as i128 && 0 <= line.col
        && n <= cols as i128 && line.col as i128 + n <= cols as i128)
}

/// Writes a grid line: each run puts `repeat` copies of its text and highlight
/// at increasing columns from `line.col`. Writes past the row's end (or
/// before its start, or on a row that does not exist) are dropped, so other
/// rows are never touched.
pub fn write_line(grid: &mut Grid, line: &GridLine)
    ensures
        line_written(cells_of(old(grid)), cells_of(final(grid)), line@),
{
    let ghost pre = cells_of(grid);
    let ghost runs = line@.cells;
    if line.row < 0 || (line.row as i128) >= (grid.len() as i128) {
        assert(cells_of(grid) =~= pre);
        return;
    }
    let r = line.row as usize;
    let width = grid[r].len();
    let n = line.cells.len();
    let mut c: i128 = line.col as i128;
    let mut i: usize = 0;
    proof {
        assert(runs.take(0) =~= Seq::<CellRun>::empty());
    }
    while i < n && c < width as i128
        invariant
            n == line.cells@.len(),
            runs == line@.cells,
            0 <= r < pre.len(),
            r == line.row,
            width == pre[r as int].len(),
            0 <= i <= n,
            line.col <= c,
            c == line.col + expand_runs(runs.take(i as int)).len(),
            grid@.len() == pre.len(),
            forall|y: int| 0 <= y < pre.len() ==> (#[trigger] grid@[y])@.len() == pre[y].len(),
            forall|y: int| 0 <= y < pre.len() && y != r ==> (#[trigger] grid@[y])@ == pre[y],
            forall|x: int|
                0 <= x < width ==> {
                    let ex = expand_runs(runs.take(i as int));
                    if line.col <= x < c {
                        shows(#[trigger] grid@[r as int]@[x], ex[x - line.col].0, ex[x - line.col].1)
                    } else {
                        grid@[r as int]@[x] == pre[r as int][x]
                    }
                },
        decreases n - i,
    {
        let run = &line.cells[i];
        let count: i128 = if run.repeat > 0 { run.repeat as i128 } else { 0 };
        let end: i128 = c + count;
        let mut x: i128 = if c < 0 { 0 } else { c };
        let stop: i128 = if end < width as i128 { end } else { width as i128 };
        let ghost ex = expand_runs(runs.take(i as int));
        proof {
            lemma_expand_step(runs, i as int);
        }
        while x < stop
            invariant
                0 <= r < pre.len(),
                width == pre[r as int].len(),
                line.col <= c,
                0 <= x,
                c <= x,
                x <= stop || x == 0,
                i < n,
                n == runs.len(),
                ex == expand_runs(runs.take(i as int)),
                c == line.col + ex.len(),
                c <= stop,
                stop <= end,
                stop <= width,
                end == c + count,
                count == run_len(runs[i as int]),
                run@ == runs[i as int],
                grid@.len() == pre.len(),
                forall|y: int| 0 <= y < pre.len() ==> (#[trigger] grid@[y])@.len() == pre[y].len(),
                forall|y: int| 0 <= y < pre.len() && y != r ==> (#[trigger] grid@[y])@ == pre[y],
                forall|z: int|
                    0 <= z < width ==> {
                        if line.col <= z < c {
                            shows(#[trigger] grid@[r as int]@[z], ex[z - line.col].0, ex[z - line.col].1)
                        } else if c <= z < x {
                            shows(grid@[r as int]@[z], run.text@, run.highlight)
                        } else {
                            grid@[r as int]@[z] == pre[r as int][z]
                        }
                    },
            decreases stop - x,
        {
            grid[r][x as usize] = TextCell { text: run.text.clone(), hl_id: run.highlight };
            x = x + 1;
        }
        proof {
            lemma_expand_step(runs, i as int);
            let ex2 = expand_runs(runs.take(i + 1));
            assert forall|z: int| 0 <= z < width implies {
                if line.col <= z < end {
                    shows(#[trigger] grid@[r as int]@[z], ex2[z - line.col].0, ex2[z - line.col].1)
                } else {
                    grid@[r as int]@[z] == pre[r as int][z]
                }
            } by {
                if line.col <= z < c {
                    assert(ex2[z - line.col] == ex[z - line.col]);
                } else if c <= z < end {
                    assert(ex2[z - line.col] == (run@.text, run@.highlight));
                }
            }
        }
        c = end;
        i = i + 1;
    }
    proof {
        lemma_expand_prefix(runs, i as int);
        assert forall|y: int, z: int| 0 <= y < pre.len() && 0 <= z < pre[y].len() implies {
            let ex = expand_runs(line@.cells);
            if y == line.row && line.col <= z < line.col + ex.len() {
                shows(#[trigger] cells_of(grid)[y][z], ex[z - line.col].0, ex[z - line.col].1)
            } else {
                cells_of(grid)[y][z] == pre[y][z]
            }
        } by {
            if y == r && i == n {
                assert(runs.take(i as int) =~= runs);
            }
        }
    }
}

/// `v` limited to `[lo, hi]`.
pub open spec fn clamp(v: int, lo: int, hi: int) -> int {
    if v < lo {
        lo
    } else if v > hi {
        hi
    } else {
        v
    }
}

/// Cell `(y, x)` after the rows `[top, bot)` were shifted by `d` rows: it holds
/// what stood `d` rows further down when that row lies in the range, is blank
/// when it lies in the range itself but its source does not, and is untouched
/// otherwise.
pub open spec fn scrolled_at(
    pre: Seq<Seq<TextCell>>,
    post: Seq<Seq<TextCell>>,
    d: int,
    top: int,
    bot: int,
    y: int,
    x: int,
) -> bool {
    if top <= y + d < bot {
        post[y][x] == pre[y + d][x]
    } else if top <= y < bot {
        is_blank(post[y][x])
    } else {
        post[y][x] == pre[y][x]
    }
}

/// `post` is `pre` after the scroll `s`, its region first clipped to the grid
/// of `pre.len()` rows and `cols` columns.
pub open spec fn scroll_done(
    pre: Seq<Seq<TextCell>>,
    post: Seq<Seq<TextCell>>,
    cols: int,
    s: GridScroll,
) -> bool {
    let top = clamp(s.top as int, 0, pre.len() as int);
    let bot = clamp(s.bot as int, 0, pre.len() as int);
    let left = clamp(s.left as int, 0, cols);
    let right = clamp(s.right as int, 0, cols);
    &&& post.len() == pre.len()
    &&& forall|y: int| 0 <= y < pre.len() ==> (#[trigger] post[y]).len() == cols
    &&& forall|y: int, x: int|
        0 <= y < pre.len() && 0 <= x < cols ==> if left <= x < right {
            scrolled_at(pre, post, s.rows as int, top, bot, y, x)
        } else {
            #[trigger] post[y][x] == pre[y][x]
        }
}

/// Shifts the region of `s` by `s.rows` rows: content moves up for a positive
/// count and down for a negative one, and the rows it leaves behind become
/// blank. The region is clipped to the grid first. Rows are visited in the
/// direction that reads every source before it is overwritten.
pub fn scroll_region(grid: &mut Grid, cols: usize, s: &GridScroll)
    requires
        has_dims(old(grid), old(grid)@.len() as int, cols as int),
    ensures
        scroll_done(cells_of(old(grid)), cells_of(final(grid)), cols as int, *s),
{
    let ghost pre = cells_of(grid);
    let nrows = grid.len();
    let top: usize = if s.top < 0 { 0 } else if s.top as i128 > nrows as i128 { nrows } else { s.top as usize };
    let bot: usize = if s.bot < 0 { 0 } else if s.bot as i128 > nrows as i128 { nrows } else { s.bot as usize };
    let left: usize = if s.left < 0 { 0 } else if s.left as i128 > cols as i128 { cols } else { s.left as usize };
    let right: usize = if s.right < 0 { 0 } else if s.right as i128 > cols as i128 { cols } else { s.right as usize };
    let bot: usize = if bot < top { top } else { bot };
    let right: usize = if right < left { left } else { right };
    let d: i128 = s.rows as i128;
    if d > 0 {
        let mut y: usize = top;
        while y < bot
            invariant
                top <= bot <= nrows,
                left <= right,
                right <= cols,
                top <= y <= bot,
                d == s.rows,
                d > 0,
                nrows == pre.len(),
                grid@.len() == nrows,
                forall|z: int| 0 <= z < nrows ==> (#[trigger] grid@[z])@.len() == cols,
                forall|z: int, x: int|
                    0 <= z < nrows && 0 <= x < cols ==> if left <= x < right {
                        scrolled_at(pre, cells_of(grid), d as int, top as int, y as int, z, x)
                    } else {
                        #[trigger] grid@[z]@[x] == pre[z][x]
                    },
            decreases bot - y,
        {
            let mut x: usize = left;
            while x < right
                invariant
                    top <= y < bot <= nrows,
                    left <= x <= right,
                    right <= cols,
                    d == s.rows,
                    d > 0,
                    nrows == pre.len(),
                    grid@.len() == nrows,
                    forall|z: int| 0 <= z < nrows ==> (#[trigger] grid@[z])@.len() == cols,
                    forall|z: int, w: int|
                        0 <= z < nrows && 0 <= w < cols ==> if left <= w < right {
                            scrolled_at(
                                pre,
                                cells_of(grid),
                                d as int,
                                top as int,
                                if w < x { y as int + 1 } else { y as int },
                                z,
                                w,
                            )
                        } else {
                            #[trigger] grid@[z]@[w] == pre[z][w]
                        },
                decreases right - x,
            {
                let dest: i128 = y as i128 - d;
                if dest >= 0 {
                    let moved = grid[y][x].duplicate();
                    grid[dest as usize][x] = moved;
                }
                grid[y][x] = TextCell::new();
                x = x + 1;
            }
            y = y + 1;
        }
    } else if d < 0 {
        let mut y: usize = bot;
        while y > top
            invariant
                top <= bot <= nrows,
                left <= right,
                right <= cols,
                top <= y <= bot,
                d == s.rows,
                d < 0,
                nrows == pre.len(),
                grid@.len() == nrows,
                forall|z: int| 0 <= z < nrows ==> (#[trigger] grid@[z])@.len() == cols,
                forall|z: int, x: int|
                    0 <= z < nrows && 0 <= x < cols ==> if left <= x < right {
                        scrolled_at(pre, cells_of(grid), d as int, y as int, bot as int, z, x)
                    } else {
                        #[trigger] grid@[z]@[x] == pre[z][x]
                    },
            decreases y,
        {
            let row = y - 1;
            let mut x: usize = right;
            while x > left
                invariant
                    top <= row < bot <= nrows,
                    left <= x <= right <= cols,
                    d == s.rows,
                    d < 0,
                    nrows == pre.len(),
                    grid@.len() == nrows,
                    forall|z: int| 0 <= z < nrows ==> (#[trigger] grid@[z])@.len() == cols,
                    forall|z: int, w: int|
                        0 <= z < nrows && 0 <= w < cols ==> if left <= w < right {
                            scrolled_at(
                                pre,
                                cells_of(grid),
                                d as int,
                                if w >= x { row as int } else { row as int + 1 },
                                bot as int,
                                z,
                                w,
                            )
                        } else {
                            #[trigger] grid@[z]@[w] == pre[z][w]
                        },
                decreases x,
            {
                let col = x - 1;
                let dest: i128 = row as i128 - d;
                if dest < nrows as i128 {
                    let moved = grid[row][col].duplicate();
                    grid[dest as usize][col] = moved;
                }
                grid[row][col] = TextCell::new();
                x = col;
            }
            y = row;
        }
    }
}

/// The region of `s` reaches outside a grid of `rows` rows and `cols`
/// columns, so part of it is clipped away.
pub open spec fn scroll_clipped(s: GridScroll, rows: int, cols: int) -> bool {
    s.top < 0 || s.bot > rows || s.left < 0 || s.right > cols
}

/// The region of `s` lies inside a grid of `rows` rows and `cols` columns.
pub open spec fn region_inside(s: GridScroll, rows: int, cols: int) -> bool {
    0 <= s.top <= s.bot <= rows && 0 <= s.left <= s.right <= cols
}

/// Scrolling up by `d > 0`: every cell of the region `d` rows or more below
/// its top reappears `d` rows higher, and the last `d` rows of the region are
/// left blank.
pub proof fn lemma_scroll_up(pre: Seq<Seq<TextCell>>, post: Seq<Seq<TextCell>>, cols: int, s: GridScroll)
    requires
        scroll_done(pre, post, cols, s),
        region_inside(s, pre.len() as int, cols),
        s.rows > 0,
    ensures
        forall|y: int, x: int|
            s.top + s.rows <= y < s.bot && s.left <= x < s.right ==> post[y - s.rows][x]
                == #[trigger] pre[y][x],
        forall|y: int, x: int|
            s.bot - s.rows <= y < s.bot && s.top <= y && s.left <= x < s.right ==> is_blank(
                #[trigger] post[y][x],
            ),
{
    assert forall|y: int, x: int|
        s.top + s.rows <= y < s.bot && s.left <= x < s.right implies post[y - s.rows][x]
            == #[trigger] pre[y][x] by {
        assert(scrolled_at(pre, post, s.rows as int, s.top as int, s.bot as int, y - s.rows, x));
    }
    assert forall|y: int, x: int|
        s.bot - s.rows <= y < s.bot && s.top <= y && s.left <= x < s.right implies is_blank(
            #[trigger] post[y][x],
        ) by {
        assert(scrolled_at(pre, post, s.rows as int, s.top as int, s.bot as int, y, x));
    }
}

/// Scrolling down by `e = -s.rows > 0`: every cell of the region at least `e`
/// rows above its bottom reappears `e` rows lower, and the first `e` rows of
/// the region are left blank.
pub proof fn lemma_scroll_down(pre: Seq<Seq<TextCell>>, post: Seq<Seq<TextCell>>, cols: int, s: GridScroll)
    requires
        scroll_done(pre, post, cols, s),
        region_inside(s, pre.len() as int, cols),
        s.rows < 0,
    ensures
        forall|y: int, x: int|
            s.top <= y < s.bot + s.rows && s.left <= x < s.right ==> post[y - s.rows][x]
                == #[trigger] pre[y][x],
        forall|y: int, x: int|
            s.top <= y < s.top - s.rows && y < s.bot && s.left <= x < s.right ==> is_blank(
                #[trigger] post[y][x],
            ),
{
    assert forall|y: int, x: int|
        s.top <= y < s.bot + s.rows && s.left <= x < s.right implies post[y - s.rows][x]
            == #[trigger] pre[y][x] by {
        assert(scrolled_at(pre, post, s.rows as int, s.top as int, s.bot as int, y - s.rows, x));
    }
    assert forall|y: int, x: int|
        s.top <= y < s.top - s.rows && y < s.bot && s.left <= x < s.right implies is_blank(
            #[trigger] post[y][x],
        ) by {
        assert(scrolled_at(pre, post, s.rows as int, s.top as int, s.bot as int, y, x));
    }
}

/// Scrolling a region by `d` and then back by `-d` restores every row of the
/// region that neither step left blank, and every cell outside the region's
/// columns.
pub proof fn lemma_scroll_round_trip(
    g0: Seq<Seq<TextCell>>,
    g1: Seq<Seq<TextCell>>,
    g2: Seq<Seq<TextCell>>,
    cols: int,
    s: GridScroll,
    back: GridScroll,
)
    requires
        scroll_done(g0, g1, cols, s),
        scroll_done(g1, g2, cols, back),
        region_inside(s, g0.len() as int, cols),
        back == (GridScroll { rows: (-s.rows) as i64, ..s }),
        s.rows > 0,
    ensures
        forall|y: int, x: int|
            s.top + s.rows <= y < s.bot && 0 <= x < cols ==> #[trigger] g2[y][x] == g0[y][x],
        forall|y: int, x: int|
            0 <= y < g0.len() && 0 <= x < cols && !(s.left <= x < s.right) ==> #[trigger] g2[y][x]
                == g0[y][x],
{
    assert forall|y: int, x: int|
        s.top + s.rows <= y < s.bot && 0 <= x < cols implies #[trigger] g2[y][x] == g0[y][x] by {
        if s.left <= x < s.right {
            assert(scrolled_at(g1, g2, back.rows as int, s.top as int, s.bot as int, y, x));
            assert(scrolled_at(g0, g1, s.rows as int, s.top as int, s.bot as int, y - s.rows, x));
        }
    }
}

} // verus!
