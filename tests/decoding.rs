use nvim_grid::decode::{decode_event, parse_grid_cells, parse_gridline_event, parse_highlight, DecodeError, NvimBridge};
use nvim_grid::events::{Highlight, NvimEvent};
use nvim_grid::grid::TextCell;
use nvim_grid::render::{parse_color, DrawOp, Layout, Rgb};
use nvim_grid::state::{BatchOutcome, Outcome, UiState};
use nvim_grid::value::RpcValue;

fn s(t: &str) -> RpcValue {
    RpcValue::String(t.to_string())
}

fn i(v: i64) -> RpcValue {
    RpcValue::Integer(v)
}

fn a(items: Vec<RpcValue>) -> RpcValue {
    RpcValue::Array(items)
}

fn apply_all(state: &mut UiState, events: Vec<NvimEvent>) -> Vec<Outcome> {
    events.iter().map(|e| state.apply(e)).collect()
}

#[test]
fn cells_default_highlight_and_repeat() {
    let entry = vec![a(vec![s("a"), i(3), i(2)]), a(vec![s("b")]), a(vec![s("c"), i(-1), i(4)]), a(vec![s("d"), i(9)])];
    let (cells, last) = parse_grid_cells(&entry, -1).unwrap();
    let got: Vec<(String, i64, i64)> = cells.iter().map(|c| (c.text.clone(), c.highlight, c.repeat)).collect();
    assert_eq!(
        got,
        vec![
            ("a".to_string(), 3, 2),
            ("b".to_string(), 3, 1),
            ("c".to_string(), 3, 4),
            ("d".to_string(), 9, 1)
        ]
    );
    assert_eq!(last, 9);
}

#[test]
fn first_run_without_highlight_keeps_minus_one() {
    let entry = vec![a(vec![s("x")]), a(vec![s("y"), i(-1)])];
    let (cells, last) = parse_grid_cells(&entry, -1).unwrap();
    assert_eq!(cells[0].highlight, -1);
    assert_eq!(cells[1].highlight, -1);
    assert_eq!(last, -1);
}

#[test]
fn mistyped_run_fields_are_rejected() {
    assert_eq!(parse_grid_cells(&vec![a(vec![i(3)])], -1).unwrap_err(), DecodeError::Malformed);
    assert!(parse_grid_cells(&vec![a(vec![s("x"), RpcValue::Nil])], -1).is_err());
    assert!(parse_grid_cells(&vec![a(vec![s("x"), i(2), s("many")])], -1).is_err());
    let (cells, _) = parse_grid_cells(&vec![a(vec![s("x"), i(2), i(3)])], -1).unwrap();
    assert_eq!((cells[0].highlight, cells[0].repeat), (2, 3));
}

#[test]
fn malformed_cells_are_rejected() {
    assert_eq!(parse_grid_cells(&vec![s("x")], -1).unwrap_err(), DecodeError::Malformed);
    assert_eq!(parse_grid_cells(&vec![a(vec![])], -1).unwrap_err(), DecodeError::Malformed);
}

#[test]
fn highlight_carries_across_lines_of_one_event() {
    let event = vec![
        s("grid_line"),
        a(vec![i(1), i(0), i(0), a(vec![a(vec![s("a"), i(7)])])]),
        a(vec![i(1), i(1), i(0), a(vec![a(vec![s("b")])])]),
    ];
    let (lines, last) = parse_gridline_event(&event, -1).unwrap();
    assert_eq!(last, 7);
    assert_eq!(lines.len(), 2);
    assert_eq!(lines[1].row, 1);
    assert_eq!(lines[1].cells[0].highlight, 7);
}

#[test]
fn malformed_line_is_rejected() {
    let event = vec![s("grid_line"), a(vec![i(1), s("row"), i(0), a(vec![])])];
    assert!(parse_gridline_event(&event, -1).is_err());
    let short = vec![s("grid_line"), a(vec![i(1), i(0), i(0)])];
    assert!(parse_gridline_event(&short, -1).is_err());
    let stray = vec![s("grid_line"), i(4)];
    assert!(parse_gridline_event(&stray, -1).is_err());
}

#[test]
fn highlight_definition_reads_known_attributes() {
    let def = a(vec![
        i(5),
        RpcValue::Dict(vec![
            (s("foreground"), i(0xff0000)),
            (s("bold"), RpcValue::Boolean(true)),
            (s("unknown"), s("ignored")),
            (s("blend"), i(30)),
        ]),
    ]);
    let (id, hl) = parse_highlight(&def).unwrap();
    assert_eq!(id, 5);
    assert_eq!(hl.fg, 0xff0000);
    assert_eq!(hl.bg, -1);
    assert_eq!(hl.special, -1);
    assert!(hl.bold && !hl.italic);
    assert_eq!(hl.blend, 30);
}

#[test]
fn highlight_definition_with_wrong_type_is_rejected() {
    let def = a(vec![i(5), RpcValue::Dict(vec![(s("bold"), i(1))])]);
    assert!(parse_highlight(&def).is_err());
    let key = a(vec![i(5), RpcValue::Dict(vec![(i(1), i(1))])]);
    assert!(parse_highlight(&key).is_err());
    assert!(parse_highlight(&a(vec![i(5)])).is_err());
}

#[test]
fn default_highlight_inherits_everything() {
    let h = Highlight::default();
    assert_eq!((h.fg, h.bg, h.special, h.blend), (-1, -1, -1, 0));
    assert!(!h.bold && !h.reverse && !h.underline);
}

#[test]
fn events_decode_to_commands() {
    let goto = decode_event(&a(vec![s("grid_cursor_goto"), a(vec![i(1), i(4), i(6)])]), -1).unwrap().0;
    assert!(matches!(goto[..], [NvimEvent::GridCursorGoto(1, 4, 6)]));
    let clear = decode_event(&a(vec![s("grid_clear"), a(vec![i(1)])]), -1).unwrap().0;
    assert!(matches!(clear[..], [NvimEvent::GridClear(1)]));
    let scroll = decode_event(&a(vec![s("grid_scroll"), a(vec![i(1), i(2), i(9), i(0), i(80), i(3), i(0)])]), -1).unwrap().0;
    match &scroll[..] {
        [NvimEvent::GridScroll(g)] => assert_eq!((g.top, g.bot, g.left, g.right, g.rows), (2, 9, 0, 80, 3)),
        _ => panic!("expected a scroll"),
    }
    let colors = decode_event(&a(vec![s("default_colors_set"), a(vec![i(1), i(2), i(3), i(0), i(0)])]), -1).unwrap().0;
    assert!(matches!(colors[..], [NvimEvent::DefaultColorsSet { fg: 1, bg: 2, special: 3 }]));
    let resize = decode_event(&a(vec![s("grid_resize"), a(vec![i(1), i(80), i(24)])]), -1).unwrap().0;
    assert!(matches!(resize[..], [NvimEvent::GridResize { grid: 1, cols: 80, rows: 24 }]));
    let flush = decode_event(&a(vec![s("flush"), a(vec![])]), -1).unwrap().0;
    assert!(matches!(flush[..], [NvimEvent::Flush]));
}

#[test]
fn ignored_events_give_nothing() {
    assert!(decode_event(&a(vec![s("mouse_on"), a(vec![])]), -1).unwrap().0.is_empty());
    assert!(decode_event(&a(vec![s("option_set"), a(vec![s("x"), i(1)])]), -1).unwrap().0.is_empty());
    assert!(decode_event(&a(vec![s("win_viewport"), a(vec![])]), -1).unwrap().0.is_empty());
}

#[test]
fn nameless_events_are_malformed() {
    assert!(decode_event(&a(vec![i(3)]), -1).is_err());
    assert!(decode_event(&i(3), -1).is_err());
}

#[test]
fn unknown_event_names_are_collected() {
    let mut b = NvimBridge::new();
    let args = vec![
        a(vec![s("win_viewport"), a(vec![])]),
        a(vec![s("mouse_on"), a(vec![])]),
        a(vec![s("busy_start"), a(vec![])]),
    ];
    assert_eq!(b.handle_notify("redraw", &args), Ok(()));
    assert_eq!(b.unknown, vec!["win_viewport".to_string(), "busy_start".to_string()]);
    assert!(b.pending.is_empty());
}

#[test]
fn highlight_carries_across_events_of_one_batch() {
    let mut b = NvimBridge::new();
    let line = |h: Option<i64>| {
        let mut run = vec![s("z")];
        if let Some(h) = h {
            run.push(i(h));
        }
        a(vec![s("grid_line"), a(vec![i(1), i(0), i(0), a(vec![a(run)])])])
    };
    b.handle_notify("redraw", &vec![line(None), line(Some(4)), line(None)]).unwrap();
    b.handle_notify("redraw", &vec![line(None)]).unwrap();
    let ids: Vec<i64> = b
        .take_events()
        .iter()
        .map(|e| match e {
            NvimEvent::GridLine(ls) => ls[0].cells[0].highlight,
            _ => panic!("expected a line"),
        })
        .collect();
    assert_eq!(ids, vec![-1, 4, 4, -1]);
}

#[test]
fn malformed_events_are_rejected() {
    assert_eq!(decode_event(&a(vec![]), -1).unwrap_err(), DecodeError::Malformed);
    assert!(decode_event(&a(vec![s("grid_resize"), a(vec![i(1), i(80)])]), -1).is_err());
    assert!(decode_event(&a(vec![s("grid_clear")]), -1).is_err());
    assert!(decode_event(&a(vec![s("grid_cursor_goto"), s("x")]), -1).is_err());
}

#[test]
fn several_highlight_definitions_in_one_event() {
    let ev = a(vec![
        s("hl_attr_define"),
        a(vec![i(1), RpcValue::Dict(vec![(s("background"), i(0x112233))])]),
        a(vec![i(2), RpcValue::Dict(vec![])]),
    ]);
    let out = decode_event(&ev, -1).unwrap().0;
    assert_eq!(out.len(), 2);
    match &out[0] {
        NvimEvent::HighlightAttrDefine { id: 1, hl } => assert_eq!(hl.bg, 0x112233),
        _ => panic!("expected a definition"),
    }
}

#[test]
fn batch_stops_at_first_malformed_event() {
    let mut b = NvimBridge::new();
    let args = vec![
        a(vec![s("grid_clear"), a(vec![i(1)])]),
        a(vec![s("grid_resize"), s("oops")]),
        a(vec![s("flush"), a(vec![])]),
    ];
    assert_eq!(b.handle_notify("redraw", &args), Err(DecodeError::Malformed));
    let got = b.take_events();
    assert_eq!(got.len(), 1);
    assert!(matches!(got[0], NvimEvent::GridClear(1)));
    assert!(b.take_events().is_empty());
}

#[test]
fn other_notifications_and_requests() {
    let mut b = NvimBridge::new();
    assert_eq!(b.handle_notify("something", &vec![a(vec![s("flush")])]), Ok(()));
    assert!(b.pending.is_empty());
    match b.handle_request("anything") {
        Err(RpcValue::String(m)) => assert_eq!(m, "Unkown request"),
        _ => panic!("expected the refusal"),
    }
    b.handle_close();
    assert!(matches!(b.take_events()[..], [NvimEvent::Close]));
}

#[test]
fn resize_line_flush_batch_end_to_end() {
    let mut b = NvimBridge::new();
    let args = vec![
        a(vec![s("grid_resize"), a(vec![i(1), i(10), i(3)])]),
        a(vec![s("grid_line"), a(vec![i(1), i(0), i(0), a(vec![a(vec![s("H"), i(5), i(1)]), a(vec![s("i"), i(5), i(1)])])])]),
        a(vec![s("flush"), a(vec![])]),
    ];
    assert_eq!(b.handle_notify("redraw", &args), Ok(()));
    let mut state = UiState::new(80, 24);
    let events = b.take_events();
    let mut again = UiState::new(80, 24);
    let outcomes = apply_all(&mut again, b.take_events());
    assert!(outcomes.is_empty());
    let result = state.apply_batch(&events);
    assert_eq!(result, BatchOutcome { redraw: true, quit: false, clipped: false });
    let outcomes = apply_all(&mut again, events);
    assert_eq!(outcomes.iter().filter(|o| **o == Outcome::Redraw).count(), 1);
    assert_eq!((state.rows, state.cols), (3, 10));
    let row: String = state.grid[0].iter().map(|c| c.text.as_str()).collect::<Vec<_>>().concat();
    assert_eq!(row, "Hi        ");
    assert_eq!(state.grid[0][0].hl_id, 5);
    assert_eq!(state.grid[0][1].hl_id, 5);
    assert!(state.grid[0][2..].iter().all(|c: &TextCell| c.text == " " && c.hl_id == 0));
}

#[test]
fn defined_foreground_renders_on_default_background() {
    let mut b = NvimBridge::new();
    let args = vec![
        a(vec![s("hl_attr_define"), a(vec![i(5), RpcValue::Dict(vec![(s("foreground"), i(0xff0000))])])]),
        a(vec![s("grid_line"), a(vec![i(1), i(0), i(0), a(vec![a(vec![s("x"), i(5)])])])]),
    ];
    b.handle_notify("redraw", &args).unwrap();
    let mut state = UiState::new(4, 1);
    apply_all(&mut state, b.take_events());
    let ops = state.frame(&Layout { x: 0, y: 0, col_width: 8, row_height: 16 });
    // clear, four glyphs without fills, cursor
    assert_eq!(ops.len(), 6);
    assert!(matches!(ops[0], DrawOp::Clear(Rgb { r: 0, g: 0, b: 0 })));
    match &ops[1] {
        DrawOp::Glyph { text, color, .. } => {
            assert_eq!(text, "x");
            assert_eq!(*color, Rgb { r: 255, g: 0, b: 0 });
        }
        _ => panic!("expected the glyph of the first cell"),
    }
    match &ops[2] {
        DrawOp::Glyph { color, .. } => assert_eq!(*color, parse_color(0x00ff00)),
        _ => panic!("expected a glyph"),
    }
    assert_eq!(state.resolve_bg(5), None);
}

#[test]
fn mode_change_names_map_to_modes() {
    let mode = |name: &str| match &decode_event(&a(vec![s("mode_change"), a(vec![s(name), i(0)])]), -1).unwrap().0[..] {
        [NvimEvent::ModeChange(m)] => *m,
        _ => panic!("expected a mode change"),
    };
    assert_eq!(mode("insert"), nvim_grid::events::NvimMode::Insert);
    assert_eq!(mode("cmdline_normal"), nvim_grid::events::NvimMode::Command);
    assert_eq!(mode("normal"), nvim_grid::events::NvimMode::Normal);
    assert_eq!(mode("visual"), nvim_grid::events::NvimMode::Normal);
    assert!(decode_event(&a(vec![s("mode_change"), a(vec![i(1)])]), -1).is_err());
}
