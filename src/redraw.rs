//! Properties of decoding one redraw event and applying the commands it
//! gives.
use vstd::prelude::*;

use crate::decode::{
    arg, decode_cells, decode_lines, lemma_highlight_carry, raw_highlight, event_commands, event_ok,
    has_int_args, scroll_args,
};
use crate::events::{EventModel, GridScroll, LineSpan};
use crate::grid::{
    all_blank, cells_of, has_dims, is_blank, lemma_scroll_down, lemma_scroll_round_trip,
    lemma_scroll_up, line_written, region_inside, TextCell,
};
use crate::state::{applied, dim, lines_written, lemma_resize_then_clear, Outcome, UiState};
use crate::value::{arr_val, str_val, RpcValue};

verus! {

/// Enough of the event names to tell them apart.
proof fn lemma_names_differ()
    ensures
        "grid_line"@.len() == 9,
        "flush"@.len() == 5,
        "grid_cursor_goto"@.len() == 16,
        "grid_clear"@.len() == 10,
        "grid_scroll"@.len() == 11 && "grid_scroll"@[5] == 's',
        "default_colors_set"@.len() == 18,
        "hl_attr_define"@.len() == 14,
        "mode_change"@.len() == 11 && "mode_change"@[0] == 'm',
        "grid_resize"@.len() == 11 && "grid_resize"@[5] == 'r' && "grid_resize"@[0] == 'g',
{
    reveal_strlit("grid_line");
    reveal_strlit("flush");
    reveal_strlit("grid_cursor_goto");
    reveal_strlit("grid_clear");
    reveal_strlit("grid_scroll");
    reveal_strlit("default_colors_set");
    reveal_strlit("hl_attr_define");
    reveal_strlit("mode_change");
    reveal_strlit("grid_resize");
}

/// `v` is a well-formed event named `name`.
pub open spec fn event_named(v: RpcValue, name: Seq<char>) -> bool {
    event_ok(v) && str_val(arr_val(v)[0]) == name
}

/// Writing exactly one line relates the grids as that line's write does.
proof fn lemma_one_line(pre: Seq<Seq<TextCell>>, post: Seq<Seq<TextCell>>, lines: Seq<LineSpan>)
    requires
        lines.len() == 1,
        lines_written(pre, post, lines),
    ensures
        line_written(pre, post, lines[0]),
{
    let mid = choose|mid: Seq<Seq<TextCell>>|
        lines_written(pre, mid, lines.drop_last()) && #[trigger] line_written(mid, post, lines.last());
    assert(lines.drop_last().len() == 0);
    assert(mid == pre);
}

/// A `grid_line` event decodes to one `GridLine` command whose lines carry
/// the highlight through the event; applying it writes the lines in order,
/// each as the left-to-right expansion of its runs, with writes outside the
/// grid dropped and the grid's dimensions kept. With a single line entry the
/// grid is exactly that line's write.
pub proof fn lemma_redraw_line(
    v: RpcValue,
    carried: i64,
    lines: Seq<LineSpan>,
    last: i64,
    s0: &UiState,
    s1: &UiState,
    out: Outcome,
)
    requires
        event_named(v, "grid_line"@),
        decode_lines(arr_val(v).drop_first(), carried) == Some((lines, last)),
        s0.wf(),
        s1.wf(),
        applied(s0, s1, EventModel::GridLine(lines), out),
    ensures
        event_commands(v, carried) == Some((seq![EventModel::GridLine(lines)], last)),
        lines_written(cells_of(&s0.grid), cells_of(&s1.grid), lines),
        s1.rows == s0.rows && s1.cols == s0.cols,
        has_dims(&s1.grid, s0.rows as int, s0.cols as int),
        lines.len() == 1 ==> line_written(cells_of(&s0.grid), cells_of(&s1.grid), lines[0]),
        arr_val(v).len() == 2 ==> ({
            let runs = arr_val(arr_val(arr_val(v)[1])[3]);
            let cells = lines[0].cells;
            &&& lines.len() == 1
            &&& decode_cells(runs, carried) == Some((cells, last))
            &&& forall|i: int|
                0 <= i < cells.len() ==> (#[trigger] cells[i]).highlight == (
                if raw_highlight(arr_val(runs[i])) != -1 {
                    raw_highlight(arr_val(runs[i]))
                } else if i == 0 {
                    carried
                } else {
                    cells[i - 1].highlight
                })
        }),
{
    if arr_val(v).len() == 2 {
        let items = arr_val(v).drop_first();
        assert(items[0] == arr_val(v)[1]);
        let runs = arr_val(arr_val(items[0])[3]);
        let (cells, next) = decode_cells(runs, carried).unwrap();
        assert(items.drop_first() =~= Seq::<RpcValue>::empty());
        assert(decode_lines(items.drop_first(), next) == Some((Seq::<LineSpan>::empty(), next)));
        assert(lines =~= seq![lines[0]]);
        lemma_highlight_carry(runs, carried);
    }
    if lines.len() == 1 {
        lemma_one_line(cells_of(&s0.grid), cells_of(&s1.grid), lines);
    }
}

/// A `grid_scroll` event with a positive count, over a region inside the
/// grid, decodes to that scroll; applying it moves every cell of the region
/// at least `d` rows below its top up by `d` rows and blanks the last `d`
/// rows of the region.
pub proof fn lemma_redraw_scroll_up(v: RpcValue, carried: i64, s0: &UiState, s1: &UiState, out: Outcome)
    requires
        event_named(v, "grid_scroll"@),
        has_int_args(arr_val(v), 7),
        s0.wf(),
        region_inside(scroll_args(arr_val(v)), s0.rows as int, s0.cols as int),
        scroll_args(arr_val(v)).rows > 0,
        applied(s0, s1, EventModel::GridScroll(scroll_args(arr_val(v))), out),
    ensures
        event_commands(v, carried) == Some((seq![EventModel::GridScroll(scroll_args(arr_val(v)))], carried)),
        ({
            let s = scroll_args(arr_val(v));
            let (pre, post) = (cells_of(&s0.grid), cells_of(&s1.grid));
            &&& forall|y: int, x: int|
                s.top + s.rows <= y < s.bot && s.left <= x < s.right ==> post[y - s.rows][x]
                    == #[trigger] pre[y][x]
            &&& forall|y: int, x: int|
                s.bot - s.rows <= y < s.bot && s.top <= y && s.left <= x < s.right ==> is_blank(
                    #[trigger] post[y][x],
                )
        }),
{
    lemma_names_differ();
    let s = scroll_args(arr_val(v));
    assert(cells_of(&s0.grid).len() == s0.rows);
    lemma_scroll_up(cells_of(&s0.grid), cells_of(&s1.grid), s0.cols as int, s);
}

/// A `grid_scroll` event with a negative count, over a region inside the
/// grid, decodes to that scroll; applying it moves every cell of the region
/// at least `e = -d` rows above its bottom down by `e` rows and blanks the
/// first `e` rows of the region.
pub proof fn lemma_redraw_scroll_down(v: RpcValue, carried: i64, s0: &UiState, s1: &UiState, out: Outcome)
    requires
        event_named(v, "grid_scroll"@),
        has_int_args(arr_val(v), 7),
        s0.wf(),
        region_inside(scroll_args(arr_val(v)), s0.rows as int, s0.cols as int),
        scroll_args(arr_val(v)).rows < 0,
        applied(s0, s1, EventModel::GridScroll(scroll_args(arr_val(v))), out),
    ensures
        event_commands(v, carried) == Some((seq![EventModel::GridScroll(scroll_args(arr_val(v)))], carried)),
        ({
            let s = scroll_args(arr_val(v));
            let (pre, post) = (cells_of(&s0.grid), cells_of(&s1.grid));
            &&& forall|y: int, x: int|
                s.top <= y < s.bot + s.rows && s.left <= x < s.right ==> post[y - s.rows][x]
                    == #[trigger] pre[y][x]
            &&& forall|y: int, x: int|
                s.top <= y < s.top - s.rows && y < s.bot && s.left <= x < s.right ==> is_blank(
                    #[trigger] post[y][x],
                )
        }),
{
    lemma_names_differ();
    let s = scroll_args(arr_val(v));
    assert(cells_of(&s0.grid).len() == s0.rows);
    lemma_scroll_down(cells_of(&s0.grid), cells_of(&s1.grid), s0.cols as int, s);
}

/// Two `grid_scroll` events over the same region inside the grid, the second
/// with the opposite count, restore every row of the region that neither
/// step left blank.
pub proof fn lemma_redraw_scroll_round_trip(
    up: RpcValue,
    down: RpcValue,
    carried: i64,
    s0: &UiState,
    s1: &UiState,
    s2: &UiState,
    o1: Outcome,
    o2: Outcome,
)
    requires
        event_named(up, "grid_scroll"@),
        event_named(down, "grid_scroll"@),
        has_int_args(arr_val(up), 7),
        has_int_args(arr_val(down), 7),
        s0.wf(),
        region_inside(scroll_args(arr_val(up)), s0.rows as int, s0.cols as int),
        scroll_args(arr_val(up)).rows > 0,
        scroll_args(arr_val(down)) == (GridScroll {
            rows: (-scroll_args(arr_val(up)).rows) as i64,
            ..scroll_args(arr_val(up))
        }),
        applied(s0, s1, EventModel::GridScroll(scroll_args(arr_val(up))), o1),
        applied(s1, s2, EventModel::GridScroll(scroll_args(arr_val(down))), o2),
    ensures
        event_commands(up, carried) == Some((seq![EventModel::GridScroll(scroll_args(arr_val(up)))], carried)),
        event_commands(down, carried) == Some((seq![EventModel::GridScroll(scroll_args(arr_val(down)))], carried)),
        forall|y: int, x: int|
            scroll_args(arr_val(up)).top + scroll_args(arr_val(up)).rows <= y < scroll_args(arr_val(up)).bot
                && 0 <= x < s0.cols ==> #[trigger] cells_of(&s2.grid)[y][x] == cells_of(&s0.grid)[y][x],
{
    lemma_names_differ();
    let s = scroll_args(arr_val(up));
    assert(cells_of(&s0.grid).len() == s0.rows);
    lemma_scroll_round_trip(
        cells_of(&s0.grid),
        cells_of(&s1.grid),
        cells_of(&s2.grid),
        s0.cols as int,
        s,
        scroll_args(arr_val(down)),
    );
}

/// A `grid_resize` event followed by a `grid_clear` event leaves a blank grid
/// of the resized dimensions, whatever the grid held before.
pub proof fn lemma_redraw_resize_then_clear(
    resize: RpcValue,
    clear: RpcValue,
    carried: i64,
    s0: &UiState,
    s1: &UiState,
    s2: &UiState,
    o1: Outcome,
    o2: Outcome,
)
    requires
        event_named(resize, "grid_resize"@),
        event_named(clear, "grid_clear"@),
        has_int_args(arr_val(resize), 3),
        has_int_args(arr_val(clear), 1),
        applied(
            s0,
            s1,
            EventModel::GridResize {
                grid: arg(arr_val(resize), 0),
                cols: arg(arr_val(resize), 1),
                rows: arg(arr_val(resize), 2),
            },
            o1,
        ),
        applied(s1, s2, EventModel::GridClear(arg(arr_val(clear), 0)), o2),
    ensures
        event_commands(resize, carried) == Some((
            seq![
                EventModel::GridResize {
                    grid: arg(arr_val(resize), 0),
                    cols: arg(arr_val(resize), 1),
                    rows: arg(arr_val(resize), 2),
                },
            ],
            carried,
        )),
        event_commands(clear, carried) == Some((seq![EventModel::GridClear(arg(arr_val(clear), 0))], carried)),
        has_dims(&s2.grid, dim(arg(arr_val(resize), 2)) as int, dim(arg(arr_val(resize), 1)) as int),
        all_blank(&s2.grid),
{
    lemma_names_differ();
    lemma_resize_then_clear(
        s0,
        s1,
        s2,
        arg(arr_val(resize), 0),
        arg(arr_val(resize), 1),
        arg(arr_val(resize), 2),
        arg(arr_val(clear), 0),
        o1,
        o2,
    );
}

} // verus!
