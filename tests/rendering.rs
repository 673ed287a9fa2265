use nvim_grid::events::{GridCell, GridLine, Highlight, NvimEvent};
use nvim_grid::render::{parse_color, DrawOp, GlyphCache, Layout, PixelRect, Rgb};
use nvim_grid::state::UiState;

fn define(state: &mut UiState, id: i64, fg: i64, bg: i64) {
    let hl = Highlight { fg, bg, ..Highlight::default() };
    state.apply(&NvimEvent::HighlightAttrDefine { id, hl });
}

#[test]
fn colors_unpack_from_packed_rgb() {
    assert_eq!(parse_color(0x123456), Rgb { r: 0x12, g: 0x34, b: 0x56 });
    assert_eq!(parse_color(0xff0000), Rgb { r: 255, g: 0, b: 0 });
    assert_eq!(parse_color(0), Rgb { r: 0, g: 0, b: 0 });
    assert_eq!(parse_color(0x7f_00ff00), Rgb { r: 0, g: 255, b: 0 });
}

#[test]
fn foreground_falls_back_to_default() {
    let mut s = UiState::new(2, 1);
    define(&mut s, 3, -1, -1);
    define(&mut s, 4, 0x0000ff, -1);
    assert_eq!(s.resolve_fg(3), parse_color(0x00ff00));
    assert_eq!(s.resolve_fg(4), Rgb { r: 0, g: 0, b: 255 });
    assert_eq!(s.resolve_fg(99), parse_color(0x00ff00));
    assert_eq!(s.resolve_fg(-1), parse_color(0x00ff00));
}

#[test]
fn background_painted_only_when_it_differs() {
    let mut s = UiState::new(2, 1);
    s.apply(&NvimEvent::DefaultColorsSet { fg: 0xffffff, bg: 0x101010, special: 0 });
    define(&mut s, 1, -1, 0x202020);
    define(&mut s, 2, -1, 0x101010);
    define(&mut s, 3, -1, -1);
    assert_eq!(s.resolve_bg(1), Some(Rgb { r: 0x20, g: 0x20, b: 0x20 }));
    assert_eq!(s.resolve_bg(2), None);
    assert_eq!(s.resolve_bg(3), None);
    assert_eq!(s.resolve_bg(7), None);
    assert_eq!(s.surface_color(), Rgb { r: 0x10, g: 0x10, b: 0x10 });
    assert_eq!(s.cursor_color(), Rgb { r: 255, g: 255, b: 255 });
}

#[test]
fn redefining_a_highlight_replaces_it() {
    let mut s = UiState::new(1, 1);
    define(&mut s, 1, 0x000001, -1);
    define(&mut s, 1, 0x000002, -1);
    assert_eq!(s.resolve_fg(1), Rgb { r: 0, g: 0, b: 2 });
    assert_eq!(s.highlights.len(), 1);
}

#[test]
fn cursor_is_clamped_into_grid() {
    let mut s = UiState::new(10, 5);
    s.apply(&NvimEvent::GridCursorGoto(1, 7, 20));
    assert_eq!(s.clamped_cursor(), (4, 9));
    s.apply(&NvimEvent::GridCursorGoto(1, -3, 2));
    assert_eq!(s.clamped_cursor(), (0, 2));
    let empty = UiState::new(0, 0);
    assert_eq!(empty.clamped_cursor(), (0, 0));
}

fn glyphs(ops: &[DrawOp]) -> Vec<(String, Rgb, PixelRect)> {
    ops.iter()
        .filter_map(|o| match o {
            DrawOp::Glyph { text, color, target } => Some((text.clone(), *color, *target)),
            _ => None,
        })
        .collect()
}

#[test]
fn frame_clears_draws_cells_then_cursor() {
    let mut s = UiState::new(3, 2);
    define(&mut s, 2, 0x010203, 0x040506);
    s.apply(&NvimEvent::GridLine(vec![GridLine {
        grid: 1,
        row: 1,
        col: 1,
        cells: vec![GridCell { text: "é".to_string(), highlight: 2, repeat: 2 }],
    }]));
    s.apply(&NvimEvent::GridCursorGoto(1, 1, 2));
    let layout = Layout { x: 5, y: 7, col_width: 10, row_height: 20 };
    let ops = s.frame(&layout);
    assert_eq!(ops.len(), 1 + 6 + 2 + 1);
    assert!(matches!(ops[0], DrawOp::Clear(Rgb { r: 0, g: 0, b: 0 })));
    let g = glyphs(&ops);
    assert_eq!(g.len(), 6);
    assert_eq!(g[0], (" ".to_string(), parse_color(0x00ff00), PixelRect { x: 5, y: 7, w: 10, h: 20 }));
    assert_eq!(g[5], ("é".to_string(), Rgb { r: 1, g: 2, b: 3 }, PixelRect { x: 25, y: 27, w: 10, h: 20 }));
    match &ops[ops.len() - 3] {
        DrawOp::Fill(r, c) => {
            assert_eq!(*r, PixelRect { x: 25, y: 27, w: 10, h: 20 });
            assert_eq!(*c, Rgb { r: 4, g: 5, b: 6 });
        }
        _ => panic!("expected the background of the last cell"),
    }
    match &ops[ops.len() - 1] {
        DrawOp::Fill(r, c) => {
            assert_eq!(*r, PixelRect { x: 25, y: 27, w: 2, h: 20 });
            assert_eq!(*c, parse_color(0x00ff00));
        }
        _ => panic!("expected the cursor"),
    }
}

#[test]
fn frame_of_empty_grid_is_clear_and_cursor() {
    let s = UiState::new(0, 0);
    let ops = s.frame(&Layout { x: 0, y: 0, col_width: 8, row_height: 16 });
    assert_eq!(ops.len(), 2);
    assert!(matches!(ops[1], DrawOp::Fill(PixelRect { x: 0, y: 0, w: 2, h: 16 }, _)));
}

#[test]
fn glyph_cache_returns_same_slot_for_same_key() {
    let mut c: GlyphCache<u32> = GlyphCache::new();
    let red = Rgb { r: 255, g: 0, b: 0 };
    let blue = Rgb { r: 0, g: 0, b: 255 };
    let a = "a".to_string();
    assert_eq!(c.find(&a, red), None);
    let first = c.insert(&a, red, 11);
    let second = c.insert(&a, red, 22);
    assert_eq!(first, second);
    assert_eq!(*c.entry(first), 11);
    assert_eq!(c.len(), 1);
    assert_eq!(c.find(&a, red), Some(first));
    let other = c.insert(&a, blue, 33);
    assert_ne!(other, first);
    assert_eq!(c.insert(&"b".to_string(), red, 44), 2);
    assert_eq!(c.len(), 3);
    assert_eq!(*c.entry(other), 33);
    assert_eq!(c.find(&"b".to_string(), blue), None);
}
