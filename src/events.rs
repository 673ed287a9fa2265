//! Typed commands decoded from the editor's redraw stream, and the client
//! commands sent back to it.
use vstd::prelude::*;

verus! {

/// One run of a grid line: `repeat` copies of `text` under `highlight`.
#[derive(Debug)]
pub struct GridCell {
    pub text: String,
    pub highlight: i64,
    pub repeat: i64,
}

/// A run as plain values.
pub struct CellRun {
    pub text: Seq<char>,
    pub highlight: i64,
    pub repeat: i64,
}

impl View for GridCell {
    type V = CellRun;

    open spec fn view(&self) -> CellRun {
        CellRun { text: self.text@, highlight: self.highlight, repeat: self.repeat }
    }
}

/// A horizontal span of runs written from `(row, col)` onwards.
#[derive(Debug)]
pub struct GridLine {
    pub grid: i64,
    pub row: i64,
    pub col: i64,
    pub cells: Vec<GridCell>,
}

/// A grid line as plain values.
pub struct LineSpan {
    pub grid: i64,
    pub row: i64,
    pub col: i64,
    pub cells: Seq<CellRun>,
}

impl View for GridLine {
    type V = LineSpan;

    open spec fn view(&self) -> LineSpan {
        LineSpan {
            grid: self.grid,
            row: self.row,
            col: self.col,
            cells: self.cells@.map_values(|c: GridCell| c@),
        }
    }
}

/// Shift of the region `[top, bot) x [left, right)` by `rows` rows.
#[derive(Debug, Clone, Copy, PartialEq, Eq, Structural)]
pub struct GridScroll {
    pub grid: i64,
    pub top: i64,
    pub bot: i64,
    pub left: i64,
    pub right: i64,
    pub rows: i64,
    pub cols: i64,
}

/// A style: colors as packed RGB integers, `-1` meaning "inherit the default".
#[derive(Debug, Clone, Copy, PartialEq, Eq, Structural)]
pub struct Highlight {
    pub fg: i64,
    pub bg: i64,
    pub special: i64,
    pub reverse: bool,
    pub italic: bool,
    pub bold: bool,
    pub strikethrough: bool,
    pub underline: bool,
    pub undercurl: bool,
    pub blend: i64,
}

/// The style that every highlight definition starts from: no colors of its
/// own, no attributes.
pub open spec fn unset_highlight() -> Highlight {
    Highlight {
        fg: -1i64,
        bg: -1i64,
        special: -1i64,
        reverse: false,
        italic: false,
        bold: false,
        strikethrough: false,
        underline: false,
        undercurl: false,
        blend: 0,
    }
}

impl Highlight {
    /// A style with every color inherited and every attribute off.
    pub fn default() -> (r: Highlight)
        ensures
            r == unset_highlight(),
    {
        Highlight {
            fg: -1,
            bg: -1,
            special: -1,
            reverse: false,
            italic: false,
            bold: false,
            strikethrough: false,
            underline: false,
            undercurl: false,
            blend: 0,
        }
    }
}

/// Cursor and naming details of one editor mode.
#[derive(Debug)]
pub struct ModeInfo {
    pub cursor_shape: String,
    pub cell_percentage: i64,
    pub attr_id: String,
    pub attr_id_lm: String,
    pub short_name: String,
    pub name: String,
}

impl Default for ModeInfo {
    fn default() -> (r: ModeInfo)
        ensures
            r.cursor_shape@.len() == 0,
            r.cell_percentage == 0,
            r.attr_id@.len() == 0,
            r.attr_id_lm@.len() == 0,
            r.short_name@.len() == 0,
            r.name@.len() == 0,
    {
        ModeInfo {
            cursor_shape: String::new(),
            cell_percentage: 0,
            attr_id: String::new(),
            attr_id_lm: String::new(),
            short_name: String::new(),
            name: String::new(),
        }
    }
}

/// The editor's input mode.
#[derive(Debug, Clone, Copy, PartialEq, Eq, Structural)]
pub enum NvimMode {
    Normal,
    Insert,
    Command,
}

/// One decoded command of the redraw stream.
#[derive(Debug)]
pub enum NvimEvent {
    GridLine(Vec<GridLine>),
    GridCursorGoto(i64, i64, i64),
    GridClear(i64),
    GridScroll(GridScroll),
    DefaultColorsSet { fg: i64, bg: i64, special: i64 },
    Flush,
    Close,
    ModeChange(NvimMode),
    ModeInfoSet(ModeInfo),
    HighlightAttrDefine { id: i64, hl: Highlight },
    GridResize { grid: i64, cols: i64, rows: i64 },
}

/// A decoded command as plain values.
pub enum EventModel {
    GridLine(Seq<LineSpan>),
    GridCursorGoto(i64, i64, i64),
    GridClear(i64),
    GridScroll(GridScroll),
    DefaultColorsSet { fg: i64, bg: i64, special: i64 },
    Flush,
    Close,
    ModeChange(NvimMode),
    ModeInfoSet,
    HighlightAttrDefine { id: i64, hl: Highlight },
    GridResize { grid: i64, cols: i64, rows: i64 },
}

impl View for NvimEvent {
    type V = EventModel;

    open spec fn view(&self) -> EventModel {
        match self {
            NvimEvent::GridLine(lines) => EventModel::GridLine(
                lines@.map_values(|l: GridLine| l@),
            ),
            NvimEvent::GridCursorGoto(g, r, c) => EventModel::GridCursorGoto(*g, *r, *c),
            NvimEvent::GridClear(g) => EventModel::GridClear(*g),
            NvimEvent::GridScroll(s) => EventModel::GridScroll(*s),
            NvimEvent::DefaultColorsSet { fg, bg, special } => EventModel::DefaultColorsSet {
                fg: *fg,
                bg: *bg,
                special: *special,
            },
            NvimEvent::Flush => EventModel::Flush,
            NvimEvent::Close => EventModel::Close,
            NvimEvent::ModeChange(m) => EventModel::ModeChange(*m),
            NvimEvent::ModeInfoSet(_) => EventModel::ModeInfoSet,
            NvimEvent::HighlightAttrDefine { id, hl } => EventModel::HighlightAttrDefine {
                id: *id,
                hl: *hl,
            },
            NvimEvent::GridResize { grid, cols, rows } => EventModel::GridResize {
                grid: *grid,
                cols: *cols,
                rows: *rows,
            },
        }
    }
}

/// A request for the editor: typed input, a mouse action or a resize.
pub enum ClientEvent {
    Text(String),
    Mouse { button: String, action: String, modifier: String, grid: i64, row: i64, col: i64 },
    WindowResize { cols: i64, rows: i64 },
}

} // verus!
