//! Decoding of the editor's redraw notifications into typed commands.
use vstd::prelude::*;

use crate::events::{
    unset_highlight, CellRun, EventModel, GridCell, GridLine, GridScroll, Highlight, LineSpan,
    NvimEvent, NvimMode,
};
use crate::value::{arr_val, bool_val, int_val, map_val, same_text, starts_with_text, str_val, RpcValue};

verus! {

/// A message whose shape does not match its event's layout.
#[derive(Debug, Clone, Copy, PartialEq, Eq, Structural)]
pub enum DecodeError {
    Malformed,
}

/// A run is an array of a string, then optionally an integer highlight id,
/// then optionally an integer repeat count.
pub open spec fn run_ok(a: Seq<RpcValue>) -> bool {
    &&& a.len() >= 1
    &&& a[0] is String
    &&& a.len() >= 2 ==> a[1] is Integer
    &&& a.len() >= 3 ==> a[2] is Integer
}

/// A run's own highlight id: its second field, or -1 ("reuse") when absent.
pub open spec fn raw_highlight(a: Seq<RpcValue>) -> i64 {
    if a.len() >= 2 {
        int_val(a[1])
    } else {
        -1i64
    }
}

/// A run's repeat count: its third field, or 1 when absent.
pub open spec fn raw_repeat(a: Seq<RpcValue>) -> i64 {
    if a.len() >= 3 {
        int_val(a[2])
    } else {
        1
    }
}

/// The run encoded by `a`, its highlight -1 replaced by `carried`.
pub open spec fn run_of(a: Seq<RpcValue>, carried: i64) -> CellRun {
    CellRun {
        text: str_val(a[0]),
        highlight: if raw_highlight(a) == -1 {
            carried
        } else {
            raw_highlight(a)
        },
        repeat: raw_repeat(a),
    }
}

/// The runs encoded by `vs`, each -1 highlight resolved to the last id seen
/// before it (starting from `carried`), with the last id seen after them; or
/// `None` when some run is malformed.
pub open spec fn decode_cells(vs: Seq<RpcValue>, carried: i64) -> Option<(Seq<CellRun>, i64)>
    decreases vs.len(),
{
    if vs.len() == 0 {
        Some((Seq::empty(), carried))
    } else if !(vs[0] is Array) || !run_ok(arr_val(vs[0])) {
        None
    } else {
        let run = run_of(arr_val(vs[0]), carried);
        match decode_cells(vs.drop_first(), run.highlight) {
            Some((rest, last)) => Some((seq![run] + rest, last)),
            None => None,
        }
    }
}

/// A line entry has integer grid, row and column fields and an array of runs.
pub open spec fn line_ok(a: Seq<RpcValue>) -> bool {
    &&& a.len() >= 4
    &&& a[0] is Integer
    &&& a[1] is Integer
    &&& a[2] is Integer
    &&& a[3] is Array
}

/// The lines of a `grid_line` event, from the line entries that follow its
/// name; the highlight carried from run to run goes on from one line to the
/// next. `None` when some entry is malformed.
pub open spec fn decode_lines(vs: Seq<RpcValue>, carried: i64) -> Option<(Seq<LineSpan>, i64)>
    decreases vs.len(),
{
    if vs.len() == 0 {
        Some((Seq::empty(), carried))
    } else {
        let a = arr_val(vs[0]);
        if !(vs[0] is Array) || !line_ok(a) {
            None
        } else {
            match decode_cells(arr_val(a[3]), carried) {
                None => None,
                Some((runs, next)) => {
                    let line = LineSpan {
                        grid: int_val(a[0]),
                        row: int_val(a[1]),
                        col: int_val(a[2]),
                        cells: runs,
                    };
                    match decode_lines(vs.drop_first(), next) {
                        None => None,
                        Some((rest, last)) => Some((seq![line] + rest, last)),
                    }
                },
            }
        }
    }
}

/// The second item of the event is an array whose first `n` items are
/// integers.
pub open spec fn has_int_args(a: Seq<RpcValue>, n: int) -> bool {
    &&& a.len() >= 2
    &&& a[1] is Array
    &&& arr_val(a[1]).len() >= n
    &&& forall|k: int| 0 <= k < n ==> (#[trigger] arr_val(a[1])[k]) is Integer
}

/// The `k`-th integer argument of the event.
pub open spec fn arg(a: Seq<RpcValue>, k: int) -> i64 {
    int_val(arr_val(a[1])[k])
}

/// The scroll described by the seven integer arguments of a `grid_scroll`
/// event.
pub open spec fn scroll_args(a: Seq<RpcValue>) -> GridScroll {
    GridScroll {
        grid: arg(a, 0),
        top: arg(a, 1),
        bot: arg(a, 2),
        left: arg(a, 3),
        right: arg(a, 4),
        rows: arg(a, 5),
        cols: arg(a, 6),
    }
}

/// `h` with the attribute named `key` set from `v`; `None` when the value
/// has the wrong type. Unknown names leave `h` as it is.
pub open spec fn set_attr(h: Highlight, key: Seq<char>, v: RpcValue) -> Option<Highlight> {
    if key == "foreground"@ {
        if v is Integer { Some(Highlight { fg: int_val(v), ..h }) } else { None }
    } else if key == "background"@ {
        if v is Integer { Some(Highlight { bg: int_val(v), ..h }) } else { None }
    } else if key == "special"@ {
        if v is Integer { Some(Highlight { special: int_val(v), ..h }) } else { None }
    } else if key == "reverse"@ {
        if v is Boolean { Some(Highlight { reverse: bool_val(v), ..h }) } else { None }
    } else if key == "italic"@ {
        if v is Boolean { Some(Highlight { italic: bool_val(v), ..h }) } else { None }
    } else if key == "bold"@ {
        if v is Boolean { Some(Highlight { bold: bool_val(v), ..h }) } else { None }
    } else if key == "strikethrough"@ {
        if v is Boolean { Some(Highlight { strikethrough: bool_val(v), ..h }) } else { None }
    } else if key == "underline"@ {
        if v is Boolean { Some(Highlight { underline: bool_val(v), ..h }) } else { None }
    } else if key == "undercurl"@ {
        if v is Boolean { Some(Highlight { undercurl: bool_val(v), ..h }) } else { None }
    } else if key == "blend"@ {
        if v is Integer { Some(Highlight { blend: int_val(v), ..h }) } else { None }
    } else {
        Some(h)
    }
}

/// `h` with the attributes of `es` set in order; `None` when a key is not a
/// string or a value has the wrong type.
pub open spec fn apply_attrs(h: Highlight, es: Seq<(RpcValue, RpcValue)>) -> Option<Highlight>
    decreases es.len(),
{
    if es.len() == 0 {
        Some(h)
    } else if !(es[0].0 is String) {
        None
    } else {
        match set_attr(h, str_val(es[0].0), es[0].1) {
            None => None,
            Some(next) => apply_attrs(next, es.drop_first()),
        }
    }
}

/// A highlight definition is an array of an integer id and an attribute map.
pub open spec fn def_ok(d: RpcValue) -> bool {
    &&& d is Array
    &&& arr_val(d).len() >= 2
    &&& arr_val(d)[0] is Integer
    &&& arr_val(d)[1] is Dict
}

/// One `HighlightAttrDefine` per definition in `ds`.
pub open spec fn decode_defs(ds: Seq<RpcValue>) -> Option<Seq<EventModel>>
    decreases ds.len(),
{
    if ds.len() == 0 {
        Some(Seq::empty())
    } else if !def_ok(ds[0]) {
        None
    } else {
        match apply_attrs(unset_highlight(), map_val(arr_val(ds[0])[1])) {
            None => None,
            Some(hl) => match decode_defs(ds.drop_first()) {
                None => None,
                Some(rest) => Some(
                    seq![EventModel::HighlightAttrDefine { id: int_val(arr_val(ds[0])[0]), hl }]
                        + rest,
                ),
            },
        }
    }
}

/// The mode a `mode_change` name stands for: the command-line modes, insert,
/// and normal for every other.
pub open spec fn mode_of(name: Seq<char>) -> NvimMode {
    if name.len() >= 7 && name.take(7) == "cmdline"@ {
        NvimMode::Command
    } else if name == "insert"@ {
        NvimMode::Insert
    } else {
        NvimMode::Normal
    }
}

/// A `mode_change` event carries an array whose first item is the mode name.
pub open spec fn mode_args_ok(a: Seq<RpcValue>) -> bool {
    &&& a.len() >= 2
    &&& a[1] is Array
    &&& arr_val(a[1]).len() >= 1
    &&& arr_val(a[1])[0] is String
}

/// The commands of the event `a` named `name`, other than `grid_line`.
pub open spec fn decode_named(name: Seq<char>, a: Seq<RpcValue>) -> Option<Seq<EventModel>> {
    if name == "flush"@ {
        Some(seq![EventModel::Flush])
    } else if name == "grid_cursor_goto"@ {
        if has_int_args(a, 3) {
            Some(seq![EventModel::GridCursorGoto(arg(a, 0), arg(a, 1), arg(a, 2))])
        } else {
            None
        }
    } else if name == "grid_clear"@ {
        if has_int_args(a, 1) {
            Some(seq![EventModel::GridClear(arg(a, 0))])
        } else {
            None
        }
    } else if name == "grid_scroll"@ {
        if has_int_args(a, 7) {
            Some(seq![EventModel::GridScroll(scroll_args(a))])
        } else {
            None
        }
    } else if name == "default_colors_set"@ {
        if has_int_args(a, 3) {
            Some(
                seq![
                    EventModel::DefaultColorsSet { fg: arg(a, 0), bg: arg(a, 1), special: arg(a, 2) },
                ],
            )
        } else {
            None
        }
    } else if name == "hl_attr_define"@ {
        decode_defs(a.drop_first())
    } else if name == "mode_change"@ {
        if mode_args_ok(a) {
            Some(seq![EventModel::ModeChange(mode_of(str_val(arr_val(a[1])[0])))])
        } else {
            None
        }
    } else if name == "grid_resize"@ {
        if has_int_args(a, 3) {
            Some(seq![EventModel::GridResize { grid: arg(a, 0), cols: arg(a, 1), rows: arg(a, 2) }])
        } else {
            None
        }
    } else {
        Some(Seq::empty())
    }
}

/// The event names this front-end knows: those it decodes, and those it
/// ignores on purpose.
pub open spec fn known_event(name: Seq<char>) -> bool {
    ||| name == "grid_line"@
    ||| name == "flush"@
    ||| name == "grid_cursor_goto"@
    ||| name == "grid_clear"@
    ||| name == "grid_scroll"@
    ||| name == "default_colors_set"@
    ||| name == "hl_attr_define"@
    ||| name == "grid_resize"@
    ||| name == "mode_change"@
    ||| name == "mouse_on"@
    ||| name == "mouse_off"@
    ||| name == "mode_info_set"@
    ||| name == "hl_group_set"@
    ||| name == "option_set"@
}

/// An event is an array whose first item is its name.
pub open spec fn event_ok(v: RpcValue) -> bool {
    v is Array && arr_val(v).len() >= 1 && arr_val(v)[0] is String
}

/// The commands of one redraw event, with the highlight id carried past it
/// (changed only by `grid_line`); `None` when the event is malformed.
/// Events with unknown names give no command.
pub open spec fn event_commands(v: RpcValue, carried: i64) -> Option<(Seq<EventModel>, i64)> {
    if !event_ok(v) {
        None
    } else if str_val(arr_val(v)[0]) == "grid_line"@ {
        match decode_lines(arr_val(v).drop_first(), carried) {
            Some((lines, last)) => Some((seq![EventModel::GridLine(lines)], last)),
            None => None,
        }
    } else {
        match decode_named(str_val(arr_val(v)[0]), arr_val(v)) {
            Some(es) => Some((es, carried)),
            None => None,
        }
    }
}

/// The name of a well-formed event that this front-end does not know.
pub open spec fn unknown_name(v: RpcValue) -> Option<Seq<char>> {
    if event_ok(v) && !known_event(str_val(arr_val(v)[0])) {
        Some(str_val(arr_val(v)[0]))
    } else {
        None
    }
}

/// What a redraw batch gives, decoded in order up to its first malformed
/// event: the commands, whether no event was malformed, and the names of the
/// unknown events passed over.
pub open spec fn batch_commands(vs: Seq<RpcValue>, carried: i64) -> (Seq<EventModel>, bool, Seq<Seq<char>>)
    decreases vs.len(),
{
    if vs.len() == 0 {
        (Seq::empty(), true, Seq::empty())
    } else {
        match event_commands(vs[0], carried) {
            None => (Seq::empty(), false, Seq::empty()),
            Some((es, next)) => {
                let rest = batch_commands(vs.drop_first(), next);
                let unknown = match unknown_name(vs[0]) {
                    Some(n) => seq![n],
                    None => Seq::empty(),
                };
                (es + rest.0, rest.1, unknown + rest.2)
            },
        }
    }
}

/// The texts of the strings.
pub open spec fn texts_view(names: Seq<String>) -> Seq<Seq<char>> {
    names.map_values(|n: String| n@)
}

/// The runs as plain values.
pub open spec fn runs_view(cells: Seq<GridCell>) -> Seq<CellRun> {
    cells.map_values(|c: GridCell| c@)
}

/// The lines as plain values.
pub open spec fn lines_view(lines: Seq<GridLine>) -> Seq<LineSpan> {
    lines.map_values(|l: GridLine| l@)
}

/// The commands as plain values.
pub open spec fn events_view(events: Seq<NvimEvent>) -> Seq<EventModel> {
    events.map_values(|e: NvimEvent| e@)
}

/// Decodes the runs of one line entry, resolving highlight -1 to the last id
/// seen (starting from `carried`); also returns the last id seen.
pub fn parse_grid_cells(entry: &Vec<RpcValue>, carried: i64) -> (r: Result<(Vec<GridCell>, i64), DecodeError>)
    ensures
        match decode_cells(entry@, carried) {
            Some((runs, last)) => r matches Ok((cells, l)) && runs_view(cells@) == runs && l == last,
            None => r is Err,
        },
{
    let mut cells: Vec<GridCell> = Vec::new();
    let mut last: i64 = carried;
    let mut i: usize = 0;
    proof {
        assert(entry@.skip(0) =~= entry@);
        assert(runs_view(cells@) =~= Seq::<CellRun>::empty());
        match decode_cells(entry@, carried) {
            Some((rest, l)) => {
                assert(runs_view(cells@) + rest =~= rest);
            },
            None => {},
        }
    }
    while i < entry.len()
        invariant
            i <= entry@.len(),
            decode_cells(entry@, carried) == match decode_cells(entry@.skip(i as int), last) {
                Some((rest, l)) => Some((runs_view(cells@) + rest, l)),
                None => None,
            },
        decreases entry@.len() - i,
    {
        proof {
            assert(entry@.skip(i as int).drop_first() =~= entry@.skip(i + 1));
            assert(entry@.skip(i as int)[0] == entry@[i as int]);
        }
        let item = match entry[i].as_array() {
            Some(a) => a,
            None => return Err(DecodeError::Malformed),
        };
        if item.len() == 0 {
            return Err(DecodeError::Malformed);
        }
        let text = match item[0].as_str() {
            Some(s) => s.clone(),
            None => return Err(DecodeError::Malformed),
        };
        let mut raw: i64 = -1;
        if item.len() >= 2 {
            match item[1].as_i64() {
                Some(h) => raw = h,
                None => return Err(DecodeError::Malformed),
            }
        }
        let mut repeat: i64 = 1;
        if item.len() >= 3 {
            match item[2].as_i64() {
                Some(n) => repeat = n,
                None => return Err(DecodeError::Malformed),
            }
        }
        let highlight = if raw == -1 { last } else { raw };
        let cell = GridCell { text, highlight, repeat };
        let ghost before = runs_view(cells@);
        proof {
            assert(cell@ == run_of(item@, last));
        }
        cells.push(cell);
        proof {
            assert(runs_view(cells@) =~= before.push(cell@));
            match decode_cells(entry@.skip(i + 1), highlight) {
                Some((rest, l)) => {
                    assert(before + (seq![cell@] + rest) =~= before.push(cell@) + rest);
                },
                None => {},
            }
        }
        last = highlight;
        i = i + 1;
    }
    proof {
        assert(entry@.skip(i as int) =~= Seq::<RpcValue>::empty());
        assert(runs_view(cells@) + Seq::<CellRun>::empty() =~= runs_view(cells@));
    }
    Ok((cells, last))
}

/// Decodes a `grid_line` event: every item after its name is one line
/// entry. A run's highlight -1 reuses the last id seen, starting from
/// `carried`; the last id seen is returned with the lines.
pub fn parse_gridline_event(event: &Vec<RpcValue>, carried: i64) -> (r: Result<(Vec<GridLine>, i64), DecodeError>)
    requires
        event@.len() >= 1,
    ensures
        match decode_lines(event@.drop_first(), carried) {
            Some((lines, last)) => r matches Ok((ls, l)) && lines_view(ls@) == lines && l == last,
            None => r is Err,
        },
{
    let mut lines: Vec<GridLine> = Vec::new();
    let mut last: i64 = carried;
    let mut i: usize = 1;
    proof {
        assert(event@.skip(1) =~= event@.drop_first());
        assert(lines_view(lines@) =~= Seq::<LineSpan>::empty());
        match decode_lines(event@.drop_first(), carried) {
            Some((rest, l)) => {
                assert(lines_view(lines@) + rest =~= rest);
            },
            None => {},
        }
    }
    while i < event.len()
        invariant
            1 <= i <= event@.len(),
            decode_lines(event@.drop_first(), carried) == match decode_lines(event@.skip(i as int), last) {
                Some((rest, l)) => Some((lines_view(lines@) + rest, l)),
                None => None,
            },
        decreases event@.len() - i,
    {
        proof {
            assert(event@.skip(i as int).drop_first() =~= event@.skip(i + 1));
            assert(event@.skip(i as int)[0] == event@[i as int]);
        }
        let item = match event[i].as_array() {
            Some(a) => a,
            None => return Err(DecodeError::Malformed),
        };
        {
            if item.len() < 4 {
                return Err(DecodeError::Malformed);
            }
            let grid = match item[0].as_i64() {
                Some(v) => v,
                None => return Err(DecodeError::Malformed),
            };
            let row = match item[1].as_i64() {
                Some(v) => v,
                None => return Err(DecodeError::Malformed),
            };
            let col = match item[2].as_i64() {
                Some(v) => v,
                None => return Err(DecodeError::Malformed),
            };
            let runs = match item[3].as_array() {
                Some(v) => v,
                None => return Err(DecodeError::Malformed),
            };
            let (cells, next) = match parse_grid_cells(runs, last) {
                Ok(p) => p,
                Err(e) => return Err(e),
            };
            let line = GridLine { grid, row, col, cells };
            let ghost before = lines_view(lines@);
            lines.push(line);
            proof {
                assert(lines_view(lines@) =~= before.push(line@));
                match decode_lines(event@.skip(i + 1), next) {
                    Some((rest, l)) => {
                        assert(before + (seq![line@] + rest) =~= before.push(line@) + rest);
                    },
                    None => {},
                }
            }
            last = next;
        }
        i = i + 1;
    }
    proof {
        assert(event@.skip(i as int) =~= Seq::<RpcValue>::empty());
        assert(lines_view(lines@) + Seq::<LineSpan>::empty() =~= lines_view(lines@));
    }
    Ok((lines, last))
}

/// The first `n` integer arguments of an event.
fn int_args(event: &Vec<RpcValue>, n: usize) -> (r: Result<Vec<i64>, DecodeError>)
    ensures
        r is Ok <==> has_int_args(event@, n as int),
        r matches Ok(v) ==> v@.len() == n && forall|k: int| 0 <= k < n ==> #[trigger] v@[k] == arg(event@, k),
{
    if event.len() < 2 {
        return Err(DecodeError::Malformed);
    }
    let items = match event[1].as_array() {
        Some(a) => a,
        None => return Err(DecodeError::Malformed),
    };
    if items.len() < n {
        return Err(DecodeError::Malformed);
    }
    let mut out: Vec<i64> = Vec::new();
    let mut k: usize = 0;
    while k < n
        invariant
            k <= n <= items@.len(),
            items@ == arr_val(event@[1]),
            out@.len() == k,
            forall|j: int| 0 <= j < k ==> (#[trigger] items@[j]) is Integer,
            forall|j: int| 0 <= j < k ==> #[trigger] out@[j] == int_val(items@[j]),
        decreases n - k,
    {
        match items[k].as_i64() {
            Some(v) => out.push(v),
            None => return Err(DecodeError::Malformed),
        }
        k = k + 1;
    }
    Ok(out)
}

/// Sets the attribute named `key` of `h` from `v`.
fn set_attribute(h: Highlight, key: &String, v: &RpcValue) -> (r: Result<Highlight, DecodeError>)
    ensures
        match set_attr(h, key@, *v) {
            Some(next) => r == Ok::<Highlight, DecodeError>(next),
            None => r is Err,
        },
{
    let k = key.as_str();
    if same_text(k, "foreground") {
        match v.as_i64() { Some(i) => Ok(Highlight { fg: i, ..h }), None => Err(DecodeError::Malformed) }
    } else if same_text(k, "background") {
        match v.as_i64() { Some(i) => Ok(Highlight { bg: i, ..h }), None => Err(DecodeError::Malformed) }
    } else if same_text(k, "special") {
        match v.as_i64() { Some(i) => Ok(Highlight { special: i, ..h }), None => Err(DecodeError::Malformed) }
    } else if same_text(k, "reverse") {
        match v.as_bool() { Some(b) => Ok(Highlight { reverse: b, ..h }), None => Err(DecodeError::Malformed) }
    } else if same_text(k, "italic") {
        match v.as_bool() { Some(b) => Ok(Highlight { italic: b, ..h }), None => Err(DecodeError::Malformed) }
    } else if same_text(k, "bold") {
        match v.as_bool() { Some(b) => Ok(Highlight { bold: b, ..h }), None => Err(DecodeError::Malformed) }
    } else if same_text(k, "strikethrough") {
        match v.as_bool() { Some(b) => Ok(Highlight { strikethrough: b, ..h }), None => Err(DecodeError::Malformed) }
    } else if same_text(k, "underline") {
        match v.as_bool() { Some(b) => Ok(Highlight { underline: b, ..h }), None => Err(DecodeError::Malformed) }
    } else if same_text(k, "undercurl") {
        match v.as_bool() { Some(b) => Ok(Highlight { undercurl: b, ..h }), None => Err(DecodeError::Malformed) }
    } else if same_text(k, "blend") {
        match v.as_i64() { Some(i) => Ok(Highlight { blend: i, ..h }), None => Err(DecodeError::Malformed) }
    } else {
        Ok(h)
    }
}

/// Decodes one highlight definition: an id and a map of attributes.
pub fn parse_highlight(def: &RpcValue) -> (r: Result<(i64, Highlight), DecodeError>)
    ensures
        !def_ok(*def) ==> r is Err,
        def_ok(*def) ==> match apply_attrs(unset_highlight(), map_val(arr_val(*def)[1])) {
            Some(hl) => r == Ok::<(i64, Highlight), DecodeError>((int_val(arr_val(*def)[0]), hl)),
            None => r is Err,
        },
{
    let parts = match def.as_array() {
        Some(a) => a,
        None => return Err(DecodeError::Malformed),
    };
    if parts.len() < 2 {
        return Err(DecodeError::Malformed);
    }
    let id = match parts[0].as_i64() {
        Some(i) => i,
        None => return Err(DecodeError::Malformed),
    };
    let entries = match parts[1].as_map() {
        Some(m) => m,
        None => return Err(DecodeError::Malformed),
    };
    let mut hl = Highlight::default();
    let mut i: usize = 0;
    proof {
        assert(entries@.skip(0) =~= entries@);
    }
    while i < entries.len()
        invariant
            i <= entries@.len(),
            entries@ == map_val(parts@[1]),
            parts@ == arr_val(*def),
            apply_attrs(unset_highlight(), entries@) == apply_attrs(hl, entries@.skip(i as int)),
        decreases entries@.len() - i,
    {
        proof {
            assert(entries@.skip(i as int).drop_first() =~= entries@.skip(i + 1));
            assert(entries@.skip(i as int)[0] == entries@[i as int]);
        }
        let (k, v) = &entries[i];
        let key = match k.as_str() {
            Some(s) => s,
            None => return Err(DecodeError::Malformed),
        };
        hl = match set_attribute(hl, key, v) {
            Ok(next) => next,
            Err(e) => return Err(e),
        };
        i = i + 1;
    }
    proof {
        assert(entries@.skip(i as int) =~= Seq::<(RpcValue, RpcValue)>::empty());
    }
    Ok((id, hl))
}

/// Decodes the definitions of an `hl_attr_define` event, which follow its
/// name.
pub fn parse_highlight_defs(event: &Vec<RpcValue>) -> (r: Result<Vec<NvimEvent>, DecodeError>)
    requires
        event@.len() >= 1,
    ensures
        match decode_defs(event@.drop_first()) {
            Some(es) => r matches Ok(v) && events_view(v@) == es,
            None => r is Err,
        },
{
    let mut out: Vec<NvimEvent> = Vec::new();
    let mut i: usize = 1;
    proof {
        assert(event@.skip(1) =~= event@.drop_first());
        assert(events_view(out@) =~= Seq::<EventModel>::empty());
        match decode_defs(event@.drop_first()) {
            Some(rest) => {
                assert(events_view(out@) + rest =~= rest);
            },
            None => {},
        }
    }
    while i < event.len()
        invariant
            1 <= i <= event@.len(),
            decode_defs(event@.drop_first()) == match decode_defs(event@.skip(i as int)) {
                Some(rest) => Some(events_view(out@) + rest),
                None => None,
            },
        decreases event@.len() - i,
    {
        proof {
            assert(event@.skip(i as int).drop_first() =~= event@.skip(i + 1));
            assert(event@.skip(i as int)[0] == event@[i as int]);
        }
        let (id, hl) = match parse_highlight(&event[i]) {
            Ok(p) => p,
            Err(e) => return Err(e),
        };
        let ev = NvimEvent::HighlightAttrDefine { id, hl };
        let ghost before = events_view(out@);
        out.push(ev);
        proof {
            assert(events_view(out@) =~= before.push(ev@));
            match decode_defs(event@.skip(i + 1)) {
                Some(rest) => {
                    assert(before + (seq![ev@] + rest) =~= before.push(ev@) + rest);
                },
                None => {},
            }
        }
        i = i + 1;
    }
    proof {
        assert(event@.skip(i as int) =~= Seq::<RpcValue>::empty());
        assert(events_view(out@) + Seq::<EventModel>::empty() =~= events_view(out@));
    }
    Ok(out)
}

/// The mode named by a `mode_change` event.
fn mode_change(event: &Vec<RpcValue>) -> (r: Result<NvimMode, DecodeError>)
    ensures
        r is Ok <==> mode_args_ok(event@),
        r matches Ok(m) ==> m == mode_of(str_val(arr_val(event@[1])[0])),
{
    if event.len() < 2 {
        return Err(DecodeError::Malformed);
    }
    let args = match event[1].as_array() {
        Some(a) => a,
        None => return Err(DecodeError::Malformed),
    };
    if args.len() < 1 {
        return Err(DecodeError::Malformed);
    }
    let name = match args[0].as_str() {
        Some(s) => s.as_str(),
        None => return Err(DecodeError::Malformed),
    };
    proof {
        reveal_strlit("cmdline");
    }
    if starts_with_text(name, "cmdline") {
        Ok(NvimMode::Command)
    } else if same_text(name, "insert") {
        Ok(NvimMode::Insert)
    } else {
        Ok(NvimMode::Normal)
    }
}

/// Whether this front-end knows the event name.
pub fn is_known_event(name: &str) -> (r: bool)
    ensures
        r == known_event(name@),
{
    same_text(name, "grid_line") || same_text(name, "flush") || same_text(name, "grid_cursor_goto")
        || same_text(name, "grid_clear") || same_text(name, "grid_scroll") || same_text(
        name,
        "default_colors_set",
    ) || same_text(name, "hl_attr_define") || same_text(name, "grid_resize") || same_text(
        name,
        "mode_change",
    ) || same_text(name, "mouse_on") || same_text(name, "mouse_off") || same_text(
        name,
        "mode_info_set",
    ) || same_text(name, "hl_group_set") || same_text(name, "option_set")
}

/// The name of `v` when it is a well-formed event of an unknown name.
fn unknown_event_name(v: &RpcValue) -> (r: Option<String>)
    ensures
        r is Some <==> unknown_name(*v) is Some,
        r matches Some(n) ==> n@ == unknown_name(*v).unwrap(),
{
    let a = v.as_array()?;
    if a.len() == 0 {
        return None;
    }
    let name = a[0].as_str()?;
    if is_known_event(name.as_str()) {
        None
    } else {
        Some(name.clone())
    }
}

/// A list of one command.
fn single(e: NvimEvent) -> (r: Vec<NvimEvent>)
    ensures
        events_view(r@) == seq![e@],
{
    let mut v: Vec<NvimEvent> = Vec::new();
    v.push(e);
    assert(events_view(v@) =~= seq![e@]);
    v
}

/// Decodes one event of a redraw batch into its commands, with the
/// highlight id carried past it. Events with names this front-end does not
/// handle give none.
pub fn decode_event(v: &RpcValue, carried: i64) -> (r: Result<(Vec<NvimEvent>, i64), DecodeError>)
    ensures
        match event_commands(*v, carried) {
            Some((es, next)) => r matches Ok((out, n)) && events_view(out@) == es && n == next,
            None => r is Err,
        },
{
    let a = match v.as_array() {
        Some(a) => a,
        None => return Err(DecodeError::Malformed),
    };
    if a.len() == 0 {
        return Err(DecodeError::Malformed);
    }
    let name = match a[0].as_str() {
        Some(s) => s.as_str(),
        None => return Err(DecodeError::Malformed),
    };
    if same_text(name, "grid_line") {
        return match parse_gridline_event(a, carried) {
            Ok((lines, last)) => Ok((single(NvimEvent::GridLine(lines)), last)),
            Err(e) => Err(e),
        };
    }
    match decode_other(name, a) {
        Ok(out) => Ok((out, carried)),
        Err(e) => Err(e),
    }
}

/// The commands of an event named `name` other than `grid_line`.
fn decode_other(name: &str, a: &Vec<RpcValue>) -> (r: Result<Vec<NvimEvent>, DecodeError>)
    requires
        a@.len() >= 1,
    ensures
        match decode_named(name@, a@) {
            Some(es) => r matches Ok(out) && events_view(out@) == es,
            None => r is Err,
        },
{
    if same_text(name, "flush") {
        Ok(single(NvimEvent::Flush))
    } else if same_text(name, "grid_cursor_goto") {
        match int_args(a, 3) {
            Ok(x) => Ok(single(NvimEvent::GridCursorGoto(x[0], x[1], x[2]))),
            Err(e) => Err(e),
        }
    } else if same_text(name, "grid_clear") {
        match int_args(a, 1) {
            Ok(x) => Ok(single(NvimEvent::GridClear(x[0]))),
            Err(e) => Err(e),
        }
    } else if same_text(name, "grid_scroll") {
        match int_args(a, 7) {
            Ok(x) => Ok(
                single(
                    NvimEvent::GridScroll(
                        GridScroll {
                            grid: x[0],
                            top: x[1],
                            bot: x[2],
                            left: x[3],
                            right: x[4],
                            rows: x[5],
                            cols: x[6],
                        },
                    ),
                ),
            ),
            Err(e) => Err(e),
        }
    } else if same_text(name, "default_colors_set") {
        match int_args(a, 3) {
            Ok(x) => Ok(single(NvimEvent::DefaultColorsSet { fg: x[0], bg: x[1], special: x[2] })),
            Err(e) => Err(e),
        }
    } else if same_text(name, "hl_attr_define") {
        parse_highlight_defs(a)
    } else if same_text(name, "mode_change") {
        match mode_change(a) {
            Ok(m) => Ok(single(NvimEvent::ModeChange(m))),
            Err(e) => Err(e),
        }
    } else if same_text(name, "grid_resize") {
        match int_args(a, 3) {
            Ok(x) => Ok(single(NvimEvent::GridResize { grid: x[0], cols: x[1], rows: x[2] })),
            Err(e) => Err(e),
        }
    } else {
        let out: Vec<NvimEvent> = Vec::new();
        assert(events_view(out@) =~= Seq::<EventModel>::empty());
        Ok(out)
    }
}

/// Receives the editor's notifications and queues the commands they carry,
/// in order, for the presentation loop; also collects the names of unknown
/// events, for the caller to log.
pub struct NvimBridge {
    pub pending: Vec<NvimEvent>,
    pub unknown: Vec<String>,
}

impl NvimBridge {
    /// A bridge with nothing queued.
    pub fn new() -> (r: NvimBridge)
        ensures
            r.pending@.len() == 0,
            r.unknown@.len() == 0,
    {
        NvimBridge { pending: Vec::new(), unknown: Vec::new() }
    }

    /// Handles a notification. For `redraw`, queues the commands of the batch
    /// in order, the highlight carry starting at -1; at the first malformed
    /// event the rest of the batch is dropped and the error returned. Unknown
    /// event names are collected. Other notifications are ignored.
    pub fn handle_notify(&mut self, name: &str, args: &Vec<RpcValue>) -> (r: Result<(), DecodeError>)
        ensures
            name@ == "redraw"@ ==> {
                &&& events_view(final(self).pending@) == events_view(old(self).pending@)
                    + batch_commands(args@, -1i64).0
                &&& texts_view(final(self).unknown@) == texts_view(old(self).unknown@)
                    + batch_commands(args@, -1i64).2
                &&& (r is Ok <==> batch_commands(args@, -1i64).1)
            },
            name@ != "redraw"@ ==> {
                &&& final(self).pending@ == old(self).pending@
                &&& final(self).unknown@ == old(self).unknown@
                &&& r is Ok
            },
    {
        if !same_text(name, "redraw") {
            return Ok(());
        }
        let ghost pre = events_view(self.pending@);
        let ghost upre = texts_view(self.unknown@);
        let mut carried: i64 = -1;
        let mut i: usize = 0;
        proof {
            assert(args@.skip(0) =~= args@);
        }
        while i < args.len()
            invariant
                i <= args@.len(),
                name@ == "redraw"@,
                pre == events_view(old(self).pending@),
                upre == texts_view(old(self).unknown@),
                pre + batch_commands(args@, -1i64).0 == events_view(self.pending@) + batch_commands(
                    args@.skip(i as int),
                    carried,
                ).0,
                upre + batch_commands(args@, -1i64).2 == texts_view(self.unknown@) + batch_commands(
                    args@.skip(i as int),
                    carried,
                ).2,
                batch_commands(args@, -1i64).1 == batch_commands(args@.skip(i as int), carried).1,
            decreases args@.len() - i,
        {
            proof {
                assert(args@.skip(i as int).drop_first() =~= args@.skip(i + 1));
                assert(args@.skip(i as int)[0] == args@[i as int]);
            }
            match decode_event(&args[i], carried) {
                Ok((mut es, next)) => {
                    let ghost cur = events_view(self.pending@);
                    let ghost add = events_view(es@);
                    self.pending.append(&mut es);
                    let ghost ucur = texts_view(self.unknown@);
                    let found = unknown_event_name(&args[i]);
                    let ghost uadd = match unknown_name(args@[i as int]) {
                        Some(n) => seq![n],
                        None => Seq::<Seq<char>>::empty(),
                    };
                    if let Some(n) = found {
                        self.unknown.push(n);
                    }
                    proof {
                        assert(events_view(self.pending@) =~= cur + add);
                        assert(texts_view(self.unknown@) =~= ucur + uadd);
                        let rest = batch_commands(args@.skip(i + 1), next);
                        assert(cur + (add + rest.0) =~= (cur + add) + rest.0);
                        assert(ucur + (uadd + rest.2) =~= (ucur + uadd) + rest.2);
                    }
                    carried = next;
                },
                Err(e) => {
                    proof {
                        assert(events_view(self.pending@) + Seq::<EventModel>::empty()
                            =~= events_view(self.pending@));
                        assert(texts_view(self.unknown@) + Seq::<Seq<char>>::empty()
                            =~= texts_view(self.unknown@));
                    }
                    return Err(e);
                },
            }
            i = i + 1;
        }
        proof {
            assert(args@.skip(i as int) =~= Seq::<RpcValue>::empty());
            assert(events_view(self.pending@) + Seq::<EventModel>::empty() =~= events_view(self.pending@));
            assert(texts_view(self.unknown@) + Seq::<Seq<char>>::empty() =~= texts_view(self.unknown@));
        }
        Ok(())
    }

    /// Handles the end of the connection: queues `Close`.
    pub fn handle_close(&mut self)
        ensures
            events_view(final(self).pending@) == events_view(old(self).pending@).push(EventModel::Close),
            final(self).unknown@ == old(self).unknown@,
    {
        let ghost before = events_view(self.pending@);
        self.pending.push(NvimEvent::Close);
        assert(events_view(self.pending@) =~= before.push(EventModel::Close));
    }

    /// Answers a request from the editor: none is supported, and every one
    /// is refused with the same message.
    pub fn handle_request(&mut self, name: &str) -> (r: Result<RpcValue, RpcValue>)
        ensures
            r matches Err(RpcValue::String(m)) && m@ == "Unkown request"@,
            final(self).pending@ == old(self).pending@,
            final(self).unknown@ == old(self).unknown@,
    {
        Err(RpcValue::String(String::from_str("Unkown request")))
    }

    /// Hands out the queued commands, oldest first, leaving the queue empty.
    pub fn take_events(&mut self) -> (r: Vec<NvimEvent>)
        ensures
            r@ == old(self).pending@,
            final(self).pending@.len() == 0,
            final(self).unknown@ == old(self).unknown@,
    {
        let mut out: Vec<NvimEvent> = Vec::new();
        std::mem::swap(&mut out, &mut self.pending);
        out
    }
}

/// Within one decode pass, a run whose own highlight is -1 takes the resolved
/// highlight of the run before it; the first run takes the carried id, which
/// a redraw batch starts at -1 (no highlight of its own).
pub proof fn lemma_highlight_carry(vs: Seq<RpcValue>, carried: i64)
    requires
        decode_cells(vs, carried) is Some,
    ensures
        decode_cells(vs, carried).unwrap().0.len() == vs.len(),
        forall|i: int|
            0 <= i < vs.len() ==> (#[trigger] decode_cells(vs, carried).unwrap().0[i]).highlight == (
            if raw_highlight(arr_val(vs[i])) != -1 {
                raw_highlight(arr_val(vs[i]))
            } else if i == 0 {
                carried
            } else {
                decode_cells(vs, carried).unwrap().0[i - 1].highlight
            }),
    decreases vs.len(),
{
    if vs.len() > 0 {
        let run = run_of(arr_val(vs[0]), carried);
        let tail = vs.drop_first();
        lemma_highlight_carry(tail, run.highlight);
        let runs = decode_cells(vs, carried).unwrap().0;
        let rest = decode_cells(tail, run.highlight).unwrap().0;
        assert forall|i: int| 0 < i < vs.len() implies #[trigger] runs[i] == rest[i - 1]
            && vs[i] == tail[i - 1] by {}
    }
}

} // verus!
