//! The authoritative screen state and the in-order application of decoded
//! commands to it.
use std::collections::HashMap;
use vstd::prelude::*;

use crate::events::{EventModel, GridLine, Highlight, LineSpan, NvimEvent, NvimMode};
use crate::grid::{
    all_blank, cells_of, has_dims, line_clipped, line_fits, line_written, new_grid, scroll_clipped,
    scroll_done, scroll_region, write_line, Grid, TextCell,
};

verus! {

broadcast use vstd::std_specs::hash::group_hash_axioms;

/// `post` is `pre` with every line of `lines` written in order.
pub open spec fn lines_written(
    pre: Seq<Seq<TextCell>>,
    post: Seq<Seq<TextCell>>,
    lines: Seq<LineSpan>,
) -> bool
    decreases lines.len(),
{
    if lines.len() == 0 {
        post == pre
    } else {
        exists|mid: Seq<Seq<TextCell>>|
            lines_written(pre, mid, lines.drop_last()) && #[trigger] line_written(
                mid,
                post,
                lines.last(),
            )
    }
}

/// The default colors, as packed RGB integers.
#[derive(Debug, Clone, Copy, PartialEq, Eq, Structural)]
pub struct DefaultColors {
    pub fg: i64,
    pub bg: i64,
    pub special: i64,
}

/// What the caller does after a command was applied.
#[derive(Debug, Clone, Copy, PartialEq, Eq, Structural)]
pub enum Outcome {
    /// Nothing to present yet.
    Pending,
    /// The batch is complete: render the grid.
    Redraw,
    /// The editor went away: stop.
    Quit,
    /// Applied, but some writes fell outside the grid and were dropped.
    Clipped,
}

/// Some line of `lines` reaches outside a grid of `rows` by `cols`.
pub open spec fn lines_clipped(rows: int, cols: int, lines: Seq<LineSpan>) -> bool {
    exists|i: int| 0 <= i < lines.len() && #[trigger] line_clipped(rows, cols, lines[i])
}

/// Everything the redraw stream maintains: the grid and its dimensions, the
/// highlight table, the default colors, the cursor and the mode.
pub struct UiState {
    pub grid: Grid,
    pub rows: usize,
    pub cols: usize,
    pub highlights: HashMap<i64, Highlight>,
    pub colors: DefaultColors,
    pub cursor_row: i64,
    pub cursor_col: i64,
    pub mode: NvimMode,
}

/// A dimension from the protocol: negative counts mean an empty grid.
pub open spec fn dim(v: i64) -> usize {
    if v < 0 {
        0
    } else {
        v as usize
    }
}

fn to_dim(v: i64) -> (r: usize)
    ensures
        r == dim(v),
{
    if v < 0 {
        0
    } else {
        v as usize
    }
}

impl UiState {
    /// The grid has the recorded dimensions.
    pub open spec fn wf(&self) -> bool {
        has_dims(&self.grid, self.rows as int, self.cols as int)
    }

    /// A blank grid of `cols` by `rows`, an empty highlight table, green on
    /// black, the cursor at the origin and normal mode.
    pub fn new(cols: usize, rows: usize) -> (r: UiState)
        ensures
            r.wf(),
            r.rows == rows,
            r.cols == cols,
            all_blank(&r.grid),
            r.highlights@ == Map::<i64, Highlight>::empty(),
            r.colors == (DefaultColors { fg: 0x00ff00, bg: 0, special: 0x0000ff }),
            r.cursor_row == 0,
            r.cursor_col == 0,
            r.mode == NvimMode::Normal,
    {
        UiState {
            grid: new_grid(cols, rows),
            rows,
            cols,
            highlights: HashMap::new(),
            colors: DefaultColors { fg: 0x00ff00, bg: 0, special: 0x0000ff },
            cursor_row: 0,
            cursor_col: 0,
            mode: NvimMode::Normal,
        }
    }

    /// Replaces the default colors; cells drawn from now on use them.
    pub fn set_colors(&mut self, fg: i64, bg: i64, special: i64)
        ensures
            final(self).colors == (DefaultColors { fg, bg, special }),
            final(self).grid == old(self).grid,
            final(self).rows == old(self).rows,
            final(self).cols == old(self).cols,
            final(self).highlights == old(self).highlights,
            final(self).cursor_row == old(self).cursor_row,
            final(self).cursor_col == old(self).cursor_col,
            final(self).mode == old(self).mode,
    {
        self.colors = DefaultColors { fg, bg, special };
    }

    /// Whether every write of every line lands inside the grid.
    fn lines_fit(&self, lines: &Vec<GridLine>) -> (r: bool)
        ensures
            r == !lines_clipped(self.rows as int, self.cols as int, lines@.map_values(|l: GridLine| l@)),
    {
        let ghost spans = lines@.map_values(|l: GridLine| l@);
        let mut i: usize = 0;
        while i < lines.len()
            invariant
                i <= lines@.len(),
                spans == lines@.map_values(|l: GridLine| l@),
                forall|j: int| 0 <= j < i ==> !#[trigger] line_clipped(self.rows as int, self.cols as int, spans[j]),
            decreases lines@.len() - i,
        {
            if !line_fits(&lines[i], self.rows, self.cols) {
                assert(line_clipped(self.rows as int, self.cols as int, spans[i as int]));
                return false;
            }
            i = i + 1;
        }
        true
    }

    /// Writes the lines in order.
    fn write_lines(&mut self, lines: &Vec<GridLine>)
        requires
            old(self).wf(),
        ensures
            final(self).wf(),
            final(self).rows == old(self).rows,
            final(self).cols == old(self).cols,
            lines_written(cells_of(&old(self).grid), cells_of(&final(self).grid), lines@.map_values(|l: GridLine| l@)),
            final(self).highlights == old(self).highlights,
            final(self).colors == old(self).colors,
            final(self).cursor_row == old(self).cursor_row,
            final(self).cursor_col == old(self).cursor_col,
            final(self).mode == old(self).mode,
    {
        let ghost pre = cells_of(&self.grid);
        let ghost spans = lines@.map_values(|l: GridLine| l@);
        let mut i: usize = 0;
        proof {
            assert(spans.take(0) =~= Seq::<LineSpan>::empty());
        }
        while i < lines.len()
            invariant
                self.wf(),
                self.rows == old(self).rows,
                self.cols == old(self).cols,
                0 <= i <= lines@.len(),
                spans == lines@.map_values(|l: GridLine| l@),
                pre == cells_of(&old(self).grid),
                lines_written(pre, cells_of(&self.grid), spans.take(i as int)),
                self.highlights == old(self).highlights,
                self.colors == old(self).colors,
                self.cursor_row == old(self).cursor_row,
                self.cursor_col == old(self).cursor_col,
                self.mode == old(self).mode,
            decreases lines@.len() - i,
        {
            let ghost mid = cells_of(&self.grid);
            write_line(&mut self.grid, &lines[i]);
            proof {
                let post = cells_of(&self.grid);
                assert(spans.take(i + 1).drop_last() =~= spans.take(i as int));
                assert(spans.take(i + 1).last() == spans[i as int]);
                assert(line_written(mid, post, spans.take(i + 1).last()));
                assert forall|r: int| 0 <= r < self.rows implies #[trigger] self.grid@[r]@.len()
                    == self.cols by {
                    assert(post[r].len() == mid[r].len());
                }
            }
            i = i + 1;
        }
        proof {
            assert(spans.take(i as int) =~= spans);
        }
    }

    /// Applies one command. Grid writes and scrolls never reach outside the
    /// grid, and report `Clipped` when a write was dropped; `Flush` asks for a
    /// render and `Close` for shutdown.
    pub fn apply(&mut self, ev: &NvimEvent) -> (out: Outcome)
        requires
            old(self).wf(),
        ensures
            final(self).wf(),
            applied(old(self), final(self), ev@, out),
    {
        match ev {
            NvimEvent::GridLine(lines) => {
                let clipped = !self.lines_fit(lines);
                self.write_lines(lines);
                if clipped {
                    Outcome::Clipped
                } else {
                    Outcome::Pending
                }
            },
            NvimEvent::Flush => Outcome::Redraw,
            NvimEvent::GridCursorGoto(_grid, row, col) => {
                self.cursor_row = *row;
                self.cursor_col = *col;
                Outcome::Pending
            },
            NvimEvent::GridClear(_grid) => {
                self.grid = new_grid(self.cols, self.rows);
                Outcome::Pending
            },
            NvimEvent::GridScroll(s) => {
                let clipped = s.top < 0 || s.bot as i128 > self.rows as i128 || s.left < 0
                    || s.right as i128 > self.cols as i128;
                scroll_region(&mut self.grid, self.cols, s);
                proof {
                    let post = cells_of(&self.grid);
                    assert forall|r: int| 0 <= r < self.rows implies #[trigger] self.grid@[r]@.len()
                        == self.cols by {
                        assert(post[r].len() == self.cols);
                    }
                }
                if clipped {
                    Outcome::Clipped
                } else {
                    Outcome::Pending
                }
            },
            NvimEvent::DefaultColorsSet { fg, bg, special } => {
                self.set_colors(*fg, *bg, *special);
                Outcome::Pending
            },
            NvimEvent::Close => Outcome::Quit,
            NvimEvent::ModeChange(mode) => {
                self.mode = *mode;
                Outcome::Pending
            },
            NvimEvent::ModeInfoSet(_info) => Outcome::Pending,
            NvimEvent::HighlightAttrDefine { id, hl } => {
                self.highlights.insert(*id, *hl);
                Outcome::Pending
            },
            NvimEvent::GridResize { grid: _grid, cols, rows } => {
                self.cols = to_dim(*cols);
                self.rows = to_dim(*rows);
                self.grid = new_grid(self.cols, self.rows);
                Outcome::Pending
            },
        }
    }

    /// Applies a drained batch in order, up to its first `Close`; reports
    /// whether a render is due, whether to stop, and whether writes were
    /// dropped.
    pub fn apply_batch(&mut self, events: &Vec<NvimEvent>) -> (r: BatchOutcome)
        requires
            old(self).wf(),
        ensures
            final(self).wf(),
            ({
                let evs = events@.map_values(|e: NvimEvent| e@);
                let k = first_close(evs);
                &&& applied_in_order(*old(self), *final(self), evs.take(k), r.redraw, r.clipped)
                &&& r.quit == (k < evs.len())
            }),
    {
        let ghost evs = events@.map_values(|e: NvimEvent| e@);
        let ghost start = *self;
        let ghost mut states: Seq<UiState> = seq![*self];
        let ghost mut outs: Seq<Outcome> = Seq::empty();
        let mut redraw = false;
        let mut clipped = false;
        let mut i: usize = 0;
        proof {
            assert(evs.take(0) =~= Seq::<EventModel>::empty());
        }
        while i < events.len()
            invariant
                self.wf(),
                start == *old(self),
                evs == events@.map_values(|e: NvimEvent| e@),
                i <= evs.len(),
                forall|j: int| 0 <= j < i ==> !(#[trigger] evs[j] is Close),
                run_of_states(states, outs, evs.take(i as int)),
                states[0] == start,
                states.last() == *self,
                redraw == reported(outs, Outcome::Redraw),
                clipped == reported(outs, Outcome::Clipped),
            decreases events@.len() - i,
        {
            if let NvimEvent::Close = &events[i] {
                proof {
                    assert(evs[i as int] is Close);
                    lemma_first_close(evs, i as int);
                    assert(run_of_states(states, outs, evs.take(i as int)));
                }
                return BatchOutcome { redraw, quit: true, clipped };
            }
            assert(!(evs[i as int] is Close));
            let ghost mid = *self;
            let out = self.apply(&events[i]);
            let ghost old_outs = outs;
            let ghost old_states = states;
            proof {
                states = states.push(*self);
                outs = outs.push(out);
                assert(evs[i as int] == events@[i as int]@);
                let e1 = evs.take(i + 1);
                assert forall|j: int| 0 <= j < e1.len() implies #[trigger] step_ok(states, outs, e1, j) by {
                    if j < i {
                        assert(e1[j] == evs.take(i as int)[j]);
                        assert(states[j] == old_states[j] && states[j + 1] == old_states[j + 1]);
                        assert(outs[j] == old_outs[j]);
                        assert(evs.take(i as int)[j] == evs[j]);
                        assert(step_ok(old_states, old_outs, evs.take(i as int), j));
                    } else {
                        assert(j == i);
                        assert(states[j] == mid);
                        assert(states[j + 1] == *self);
                        assert(e1[j] == evs[i as int]);
                        assert(outs[j] == out);
                        assert(mid.wf());
                    }
                }
                assert(e1.len() == i + 1);
                assert(states.len() == e1.len() + 1);
                assert(outs.len() == e1.len());
                assert(run_of_states(states, outs, e1));
                assert(reported(outs, Outcome::Redraw) == (redraw || out == Outcome::Redraw)) by {
                    if out == Outcome::Redraw {
                        assert(outs[outs.len() - 1] == Outcome::Redraw);
                    }
                    if redraw {
                        let j = choose|j: int| 0 <= j < old_outs.len() && #[trigger] old_outs[j] == Outcome::Redraw;
                        assert(outs[j] == old_outs[j]);
                    }
                    if reported(outs, Outcome::Redraw) {
                        let j = choose|j: int| 0 <= j < outs.len() && #[trigger] outs[j] == Outcome::Redraw;
                        if j < old_outs.len() {
                            assert(old_outs[j] == outs[j]);
                        }
                    }
                }
                assert(reported(outs, Outcome::Clipped) == (clipped || out == Outcome::Clipped)) by {
                    if out == Outcome::Clipped {
                        assert(outs[outs.len() - 1] == Outcome::Clipped);
                    }
                    if clipped {
                        let j = choose|j: int| 0 <= j < old_outs.len() && #[trigger] old_outs[j] == Outcome::Clipped;
                        assert(outs[j] == old_outs[j]);
                    }
                    if reported(outs, Outcome::Clipped) {
                        let j = choose|j: int| 0 <= j < outs.len() && #[trigger] outs[j] == Outcome::Clipped;
                        if j < old_outs.len() {
                            assert(old_outs[j] == outs[j]);
                        }
                    }
                }
            }
            redraw = redraw || out == Outcome::Redraw;
            clipped = clipped || out == Outcome::Clipped;
            i = i + 1;
        }
        proof {
            lemma_first_close(evs, i as int);
            assert(evs.take(i as int) =~= evs);
            assert(run_of_states(states, outs, evs.take(i as int)));
        }
        BatchOutcome { redraw, quit: false, clipped }
    }
}

/// What applying a drained batch of commands reported.
#[derive(Debug, Clone, Copy, PartialEq, Eq, Structural)]
pub struct BatchOutcome {
    /// Some command asked for a render.
    pub redraw: bool,
    /// The batch held `Close`: stop.
    pub quit: bool,
    /// Some write fell outside the grid and was dropped.
    pub clipped: bool,
}

/// Where the first `Close` stands in `evs`, or its length.
pub open spec fn first_close(evs: Seq<EventModel>) -> int
    decreases evs.len(),
{
    if evs.len() == 0 {
        0
    } else if evs[0] is Close {
        0
    } else {
        1 + first_close(evs.drop_first())
    }
}

/// `states` are the states passed through while applying `evs` in order,
/// none of them `Close`, and `outs` what each command reported.
pub open spec fn run_of_states(states: Seq<UiState>, outs: Seq<Outcome>, evs: Seq<EventModel>) -> bool {
    &&& states.len() == evs.len() + 1
    &&& outs.len() == evs.len()
    &&& forall|j: int| 0 <= j < evs.len() ==> #[trigger] step_ok(states, outs, evs, j)
}

/// Command `j` of `evs` is no `Close` and took `states[j]` to
/// `states[j + 1]`, reporting `outs[j]`.
pub open spec fn step_ok(states: Seq<UiState>, outs: Seq<Outcome>, evs: Seq<EventModel>, j: int) -> bool {
    &&& states[j].wf()
    &&& !(evs[j] is Close)
    &&& applied(&states[j], &states[j + 1], evs[j], outs[j])
}

/// Some command reported `o`.
pub open spec fn reported(outs: Seq<Outcome>, o: Outcome) -> bool {
    exists|j: int| 0 <= j < outs.len() && #[trigger] outs[j] == o
}

/// `post` is `pre` after the commands `evs`, none of them `Close`, applied
/// in order; `redraw` and `clipped` say whether any asked for a render or
/// dropped writes.
pub open spec fn applied_in_order(
    pre: UiState,
    post: UiState,
    evs: Seq<EventModel>,
    redraw: bool,
    clipped: bool,
) -> bool {
    exists|states: Seq<UiState>, outs: Seq<Outcome>|
        #[trigger] run_of_states(states, outs, evs) && states[0] == pre && states.last() == post
            && redraw == reported(outs, Outcome::Redraw) && clipped == reported(outs, Outcome::Clipped)
}

/// When no command before `i` is `Close`, the first `Close` stands at `i`
/// if `evs[i]` is one, and at or after `i` otherwise.
pub proof fn lemma_first_close(evs: Seq<EventModel>, i: int)
    requires
        0 <= i <= evs.len(),
        forall|j: int| 0 <= j < i ==> !(#[trigger] evs[j] is Close),
    ensures
        i < evs.len() && evs[i] is Close ==> first_close(evs) == i,
        first_close(evs) >= i,
        i == evs.len() ==> first_close(evs) == evs.len(),
    decreases i,
{
    if i > 0 {
        let tail = evs.drop_first();
        assert forall|j: int| 0 <= j < i - 1 implies !(#[trigger] tail[j] is Close) by {
            assert(tail[j] == evs[j + 1]);
        }
        lemma_first_close(tail, i - 1);
    } else if evs.len() > 0 {
        lemma_first_close_bound(evs);
    }
}

/// The first `Close` stands within the sequence or at its end.
proof fn lemma_first_close_bound(evs: Seq<EventModel>)
    ensures
        0 <= first_close(evs) <= evs.len(),
    decreases evs.len(),
{
    if evs.len() > 0 && !(evs[0] is Close) {
        lemma_first_close_bound(evs.drop_first());
    }
}

/// All of `post` but the grid and its dimensions equals `pre`.
pub open spec fn same_but_grid(pre: &UiState, post: &UiState) -> bool {
    &&& post.highlights@ == pre.highlights@
    &&& post.colors == pre.colors
    &&& post.cursor_row == pre.cursor_row
    &&& post.cursor_col == pre.cursor_col
    &&& post.mode == pre.mode
}

/// `post` is `pre` with all but its grid unchanged.
pub open spec fn only_grid(pre: &UiState, post: &UiState) -> bool {
    same_but_grid(pre, post) && post.rows == pre.rows && post.cols == pre.cols
}

/// `post` equals `pre` in everything.
pub open spec fn unchanged(pre: &UiState, post: &UiState) -> bool {
    only_grid(pre, post) && cells_of(&post.grid) == cells_of(&pre.grid)
}

/// What applying the command `ev` to `pre` gives: the state `post` and the
/// outcome `out`.
pub open spec fn applied(pre: &UiState, post: &UiState, ev: EventModel, out: Outcome) -> bool {
    match ev {
        EventModel::GridLine(lines) => {
            &&& only_grid(pre, post)
            &&& lines_written(cells_of(&pre.grid), cells_of(&post.grid), lines)
            &&& out == if lines_clipped(pre.rows as int, pre.cols as int, lines) {
                Outcome::Clipped
            } else {
                Outcome::Pending
            }
        },
        EventModel::Flush => unchanged(pre, post) && out == Outcome::Redraw,
        EventModel::Close => unchanged(pre, post) && out == Outcome::Quit,
        EventModel::GridCursorGoto(_grid, row, col) => {
            &&& post.cursor_row == row
            &&& post.cursor_col == col
            &&& cells_of(&post.grid) == cells_of(&pre.grid)
            &&& post.rows == pre.rows && post.cols == pre.cols
            &&& post.highlights@ == pre.highlights@
            &&& post.colors == pre.colors
            &&& post.mode == pre.mode
            &&& out == Outcome::Pending
        },
        EventModel::GridClear(_grid) => {
            &&& only_grid(pre, post)
            &&& has_dims(&post.grid, post.rows as int, post.cols as int)
            &&& all_blank(&post.grid)
            &&& out == Outcome::Pending
        },
        EventModel::GridScroll(s) => {
            &&& only_grid(pre, post)
            &&& scroll_done(cells_of(&pre.grid), cells_of(&post.grid), pre.cols as int, s)
            &&& out == if scroll_clipped(s, pre.rows as int, pre.cols as int) {
                Outcome::Clipped
            } else {
                Outcome::Pending
            }
        },
        EventModel::DefaultColorsSet { fg, bg, special } => {
            &&& post.colors == (DefaultColors { fg, bg, special })
            &&& cells_of(&post.grid) == cells_of(&pre.grid)
            &&& post.rows == pre.rows && post.cols == pre.cols
            &&& post.highlights@ == pre.highlights@
            &&& post.cursor_row == pre.cursor_row
            &&& post.cursor_col == pre.cursor_col
            &&& post.mode == pre.mode
            &&& out == Outcome::Pending
        },
        EventModel::ModeChange(mode) => {
            &&& post.mode == mode
            &&& cells_of(&post.grid) == cells_of(&pre.grid)
            &&& post.rows == pre.rows && post.cols == pre.cols
            &&& post.highlights@ == pre.highlights@
            &&& post.colors == pre.colors
            &&& post.cursor_row == pre.cursor_row
            &&& post.cursor_col == pre.cursor_col
            &&& out == Outcome::Pending
        },
        EventModel::ModeInfoSet => unchanged(pre, post) && out == Outcome::Pending,
        EventModel::HighlightAttrDefine { id, hl } => {
            &&& post.highlights@ == pre.highlights@.insert(id, hl)
            &&& cells_of(&post.grid) == cells_of(&pre.grid)
            &&& post.rows == pre.rows && post.cols == pre.cols
            &&& post.colors == pre.colors
            &&& post.cursor_row == pre.cursor_row
            &&& post.cursor_col == pre.cursor_col
            &&& post.mode == pre.mode
            &&& out == Outcome::Pending
        },
        EventModel::GridResize { grid: _grid, cols, rows } => {
            &&& same_but_grid(pre, post)
            &&& post.rows == dim(rows)
            &&& post.cols == dim(cols)
            &&& has_dims(&post.grid, post.rows as int, post.cols as int)
            &&& all_blank(&post.grid)
            &&& out == Outcome::Pending
        },
    }
}

/// A resize followed by a clear leaves a blank grid of the new dimensions,
/// whatever the grid held before.
pub proof fn lemma_resize_then_clear(
    s0: &UiState,
    s1: &UiState,
    s2: &UiState,
    grid: i64,
    cols: i64,
    rows: i64,
    clear_grid: i64,
    o1: Outcome,
    o2: Outcome,
)
    requires
        applied(s0, s1, EventModel::GridResize { grid, cols, rows }, o1),
        applied(s1, s2, EventModel::GridClear(clear_grid), o2),
    ensures
        s2.rows == dim(rows),
        s2.cols == dim(cols),
        has_dims(&s2.grid, dim(rows) as int, dim(cols) as int),
        all_blank(&s2.grid),
{
}

} // verus!
