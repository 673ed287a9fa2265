//! What a render pass draws: resolved cell colors, the clamped cursor, and a
//! glyph cache keyed by text and color.
use vstd::prelude::*;

use crate::events::Highlight;
use crate::state::UiState;

verus! {

broadcast use vstd::std_specs::hash::group_hash_axioms;

/// An opaque RGB color.
#[derive(Debug, Clone, Copy, PartialEq, Eq, Structural)]
pub struct Rgb {
    pub r: u8,
    pub g: u8,
    pub b: u8,
}

/// The color packed in the low 24 bits of `c` (red highest).
pub open spec fn rgb_of(c: i64) -> Rgb {
    let u = c as u64;
    Rgb { r: (u / 0x10000 % 0x100) as u8, g: (u / 0x100 % 0x100) as u8, b: (u % 0x100) as u8 }
}

/// Unpacks a `0xRRGGBB` color.
pub fn parse_color(c: i64) -> (r: Rgb)
    ensures
        r == rgb_of(c),
{
    let u = c as u64;
    let r = (u & 0xff0000) >> 16;
    let g = (u & 0x00ff00) >> 8;
    let b = u & 0x0000ff;
    assert(((u & 0xff0000) >> 16) == u / 0x10000 % 0x100) by (bit_vector);
    assert(((u & 0x00ff00) >> 8) == u / 0x100 % 0x100) by (bit_vector);
    assert((u & 0x0000ff) == u % 0x100) by (bit_vector);
    Rgb { r: r as u8, g: g as u8, b: b as u8 }
}

/// The foreground of a cell with highlight `id`: the highlight's own color
/// when the table defines `id` with one, the default otherwise.
pub open spec fn cell_fg(table: Map<i64, Highlight>, id: i64, default_fg: i64) -> Rgb {
    if table.contains_key(id) && table[id].fg != -1 {
        rgb_of(table[id].fg)
    } else {
        rgb_of(default_fg)
    }
}

/// The background to paint under a cell with highlight `id`: its
/// highlight's own background, when it has one that differs from the
/// surface's.
pub open spec fn cell_bg(table: Map<i64, Highlight>, id: i64, default_bg: i64) -> Option<Rgb> {
    if table.contains_key(id) && table[id].bg != -1 && rgb_of(table[id].bg) != rgb_of(default_bg) {
        Some(rgb_of(table[id].bg))
    } else {
        None
    }
}

/// A highlight id that the table does not define, such as the -1 left by a
/// first run with no highlight of its own, draws in the default colors.
pub proof fn lemma_undefined_highlight(table: Map<i64, Highlight>, id: i64, default_fg: i64, default_bg: i64)
    requires
        !table.contains_key(id),
    ensures
        cell_fg(table, id, default_fg) == rgb_of(default_fg),
        cell_bg(table, id, default_bg) is None,
{
}

/// `v` limited to `[0, hi]`, or 0 when `hi` is negative.
pub open spec fn clamp_index(v: i64, hi: int) -> usize {
    if v < 0 || hi < 0 {
        0
    } else if v > hi {
        hi as usize
    } else {
        v as usize
    }
}

impl UiState {
    /// The foreground of a cell with highlight `id`.
    pub fn resolve_fg(&self, id: i64) -> (r: Rgb)
        ensures
            r == cell_fg(self.highlights@, id, self.colors.fg),
    {
        match self.highlights.get(&id) {
            Some(hl) => {
                if hl.fg == -1 {
                    parse_color(self.colors.fg)
                } else {
                    parse_color(hl.fg)
                }
            },
            None => parse_color(self.colors.fg),
        }
    }

    /// The background fill under a cell with highlight `id`, if any.
    pub fn resolve_bg(&self, id: i64) -> (r: Option<Rgb>)
        ensures
            r == cell_bg(self.highlights@, id, self.colors.bg),
    {
        match self.highlights.get(&id) {
            Some(hl) => {
                if hl.bg == -1 {
                    None
                } else {
                    let c = parse_color(hl.bg);
                    let surface = parse_color(self.colors.bg);
                    if c == surface {
                        None
                    } else {
                        Some(c)
                    }
                }
            },
            None => None,
        }
    }

    /// The color the surface is cleared to.
    pub fn surface_color(&self) -> (r: Rgb)
        ensures
            r == rgb_of(self.colors.bg),
    {
        parse_color(self.colors.bg)
    }

    /// The color of the cursor bar.
    pub fn cursor_color(&self) -> (r: Rgb)
        ensures
            r == rgb_of(self.colors.fg),
    {
        parse_color(self.colors.fg)
    }

    /// The cursor position, clamped into the grid.
    pub fn clamped_cursor(&self) -> (r: (usize, usize))
        ensures
            r.0 == clamp_index(self.cursor_row, self.rows - 1),
            r.1 == clamp_index(self.cursor_col, self.cols - 1),
    {
        (clamp_to(self.cursor_row, self.rows), clamp_to(self.cursor_col, self.cols))
    }
}

fn clamp_to(v: i64, n: usize) -> (r: usize)
    ensures
        r == clamp_index(v, n - 1),
{
    if v < 0 || n == 0 {
        0
    } else if v as i128 > n as i128 - 1 {
        n - 1
    } else {
        v as usize
    }
}

/// A rectangle on the surface, in pixels.
#[derive(Debug, Clone, Copy, PartialEq, Eq, Structural)]
pub struct PixelRect {
    pub x: i128,
    pub y: i128,
    pub w: u32,
    pub h: u32,
}

/// Where the grid sits on the surface and how large one cell is.
#[derive(Debug, Clone, Copy, PartialEq, Eq, Structural)]
pub struct Layout {
    pub x: i64,
    pub y: i64,
    pub col_width: u32,
    pub row_height: u32,
}

/// One drawing operation of a frame.
#[derive(Debug)]
pub enum DrawOp {
    /// Fill the whole surface.
    Clear(Rgb),
    /// Fill a rectangle.
    Fill(PixelRect, Rgb),
    /// Draw the glyph of `text` in `color`, stretched to `target`.
    Glyph { text: String, color: Rgb, target: PixelRect },
}

/// A drawing operation as plain values.
pub enum DrawStep {
    Clear(Rgb),
    Fill(PixelRect, Rgb),
    Glyph(Seq<char>, Rgb, PixelRect),
}

impl View for DrawOp {
    type V = DrawStep;

    open spec fn view(&self) -> DrawStep {
        match self {
            DrawOp::Clear(c) => DrawStep::Clear(*c),
            DrawOp::Fill(r, c) => DrawStep::Fill(*r, *c),
            DrawOp::Glyph { text, color, target } => DrawStep::Glyph(text@, *color, *target),
        }
    }
}

/// The operations as plain values.
pub open spec fn steps_of(ops: Seq<DrawOp>) -> Seq<DrawStep> {
    ops.map_values(|o: DrawOp| o@)
}

/// The box of cell `(y, x)`: every glyph is drawn at the cell size, whatever
/// its natural size.
pub open spec fn cell_rect(l: Layout, y: int, x: int) -> PixelRect {
    PixelRect {
        x: (l.x + x * l.col_width) as i128,
        y: (l.y + y * l.row_height) as i128,
        w: l.col_width,
        h: l.row_height,
    }
}

/// What cell `(y, x)` draws: its background when it has its own, then its
/// glyph.
pub open spec fn cell_steps(s: &UiState, l: Layout, y: int, x: int) -> Seq<DrawStep> {
    let cell = s.grid@[y]@[x];
    let r = cell_rect(l, y, x);
    let glyph = DrawStep::Glyph(cell.text@, cell_fg(s.highlights@, cell.hl_id, s.colors.fg), r);
    match cell_bg(s.highlights@, cell.hl_id, s.colors.bg) {
        Some(bg) => seq![DrawStep::Fill(r, bg), glyph],
        None => seq![glyph],
    }
}

/// What the first `n` cells of row `y` draw, left to right.
pub open spec fn row_steps(s: &UiState, l: Layout, y: int, n: int) -> Seq<DrawStep>
    decreases n,
{
    if n <= 0 {
        Seq::empty()
    } else {
        row_steps(s, l, y, n - 1) + cell_steps(s, l, y, n - 1)
    }
}

/// What the first `m` rows draw, top to bottom.
pub open spec fn grid_steps(s: &UiState, l: Layout, m: int) -> Seq<DrawStep>
    decreases m,
{
    if m <= 0 {
        Seq::empty()
    } else {
        grid_steps(s, l, m - 1) + row_steps(s, l, m - 1, s.cols as int)
    }
}

/// The cursor bar: two pixels wide and one cell tall, at the clamped cursor.
pub open spec fn cursor_rect(s: &UiState, l: Layout) -> PixelRect {
    let r = clamp_index(s.cursor_row, s.rows - 1);
    let c = clamp_index(s.cursor_col, s.cols - 1);
    PixelRect {
        x: (l.x + c * l.col_width) as i128,
        y: (l.y + r * l.row_height) as i128,
        w: 2,
        h: l.row_height,
    }
}

/// A frame: clear to the default background, draw every cell, then the
/// cursor on top in the default foreground.
pub open spec fn frame_steps(s: &UiState, l: Layout) -> Seq<DrawStep> {
    seq![DrawStep::Clear(rgb_of(s.colors.bg))] + grid_steps(s, l, s.rows as int) + seq![
        DrawStep::Fill(cursor_rect(s, l), rgb_of(s.colors.fg)),
    ]
}

fn pixel(origin: i64, index: usize, size: u32) -> (r: i128)
    ensures
        r == origin + index * size,
{
    assert(0 <= index * size <= 0xffff_ffff_ffff_ffff * 0xffff_ffff) by (nonlinear_arith)
        requires
            index <= 0xffff_ffff_ffff_ffff,
            size <= 0xffff_ffff,
    ;
    origin as i128 + (index as i128) * (size as i128)
}

impl UiState {
    /// The drawing operations of one frame.
    pub fn frame(&self, layout: &Layout) -> (r: Vec<DrawOp>)
        requires
            self.wf(),
        ensures
            steps_of(r@) == frame_steps(self, *layout),
    {
        let mut out: Vec<DrawOp> = Vec::new();
        out.push(DrawOp::Clear(self.surface_color()));
        let ghost head = seq![DrawStep::Clear(rgb_of(self.colors.bg))];
        proof {
            assert(steps_of(out@) =~= head + grid_steps(self, *layout, 0));
        }
        let mut y: usize = 0;
        while y < self.rows
            invariant
                self.wf(),
                y <= self.rows,
                head == seq![DrawStep::Clear(rgb_of(self.colors.bg))],
                steps_of(out@) == head + grid_steps(self, *layout, y as int),
            decreases self.rows - y,
        {
            let mut x: usize = 0;
            proof {
                assert(steps_of(out@) =~= head + grid_steps(self, *layout, y as int) + row_steps(self, *layout, y as int, 0));
            }
            while x < self.cols
                invariant
                    self.wf(),
                    y < self.rows,
                    x <= self.cols,
                    head == seq![DrawStep::Clear(rgb_of(self.colors.bg))],
                    steps_of(out@) == head + grid_steps(self, *layout, y as int) + row_steps(
                        self,
                        *layout,
                        y as int,
                        x as int,
                    ),
                decreases self.cols - x,
            {
                let cell = &self.grid[y][x];
                let target = PixelRect {
                    x: pixel(layout.x, x, layout.col_width),
                    y: pixel(layout.y, y, layout.row_height),
                    w: layout.col_width,
                    h: layout.row_height,
                };
                let ghost before = steps_of(out@);
                let bg = self.resolve_bg(cell.hl_id);
                if let Some(c) = bg {
                    out.push(DrawOp::Fill(target, c));
                }
                let glyph = DrawOp::Glyph {
                    text: cell.text.clone(),
                    color: self.resolve_fg(cell.hl_id),
                    target,
                };
                out.push(glyph);
                proof {
                    assert(target == cell_rect(*layout, y as int, x as int));
                    assert(steps_of(out@) =~= before + cell_steps(self, *layout, y as int, x as int));
                }
                x = x + 1;
            }
            proof {
                assert(steps_of(out@) =~= head + grid_steps(self, *layout, y + 1));
            }
            y = y + 1;
        }
        let (row, col) = self.clamped_cursor();
        let cursor = PixelRect {
            x: pixel(layout.x, col, layout.col_width),
            y: pixel(layout.y, row, layout.row_height),
            w: 2,
            h: layout.row_height,
        };
        let ghost before = steps_of(out@);
        out.push(DrawOp::Fill(cursor, self.cursor_color()));
        proof {
            assert(steps_of(out@) =~= before.push(DrawStep::Fill(cursor_rect(self, *layout), rgb_of(self.colors.fg))));
        }
        out
    }
}

/// The key of a cached glyph: its text and color.
pub type GlyphKey = (Seq<char>, Rgb);

/// Where `k` stands in `keys` (its last occurrence), or -1.
pub open spec fn position(keys: Seq<GlyphKey>, k: GlyphKey) -> int
    decreases keys.len(),
{
    if keys.len() == 0 {
        -1
    } else if keys.last() == k {
        keys.len() - 1
    } else {
        position(keys.drop_last(), k)
    }
}

/// The keys after asking for `k`: unchanged when `k` is cached, else with `k`
/// appended.
pub open spec fn keys_after(keys: Seq<GlyphKey>, k: GlyphKey) -> Seq<GlyphKey> {
    if position(keys, k) >= 0 {
        keys
    } else {
        keys.push(k)
    }
}

/// The slot that asking for `k` yields: the cached one, else a new last slot.
pub open spec fn slot_for(keys: Seq<GlyphKey>, k: GlyphKey) -> int {
    if position(keys, k) >= 0 {
        position(keys, k)
    } else {
        keys.len() as int
    }
}

/// A position is a valid index holding the key.
pub proof fn lemma_position(keys: Seq<GlyphKey>, k: GlyphKey)
    ensures
        -1 <= position(keys, k) < keys.len(),
        position(keys, k) >= 0 ==> keys[position(keys, k)] == k,
        position(keys, k) < 0 ==> forall|i: int| 0 <= i < keys.len() ==> keys[i] != k,
    decreases keys.len(),
{
    if keys.len() > 0 && keys.last() != k {
        lemma_position(keys.drop_last(), k);
        if position(keys, k) < 0 {
            assert forall|i: int| 0 <= i < keys.len() implies keys[i] != k by {
                if i < keys.len() - 1 {
                    assert(keys.drop_last()[i] == keys[i]);
                }
            }
        }
    }
}

/// Rendered glyphs, each stored once per text and color and never evicted.
pub struct GlyphCache<E> {
    texts: Vec<String>,
    colors: Vec<Rgb>,
    entries: Vec<E>,
}

impl<E> GlyphCache<E> {
    /// The cached keys, in insertion order.
    pub closed spec fn keys(&self) -> Seq<GlyphKey> {
        Seq::new(self.texts@.len(), |i: int| (self.texts@[i]@, self.colors@[i]))
    }

    /// The cached entries, slot by slot.
    pub closed spec fn slots(&self) -> Seq<E> {
        self.entries@
    }

    /// Keys and entries are paired one to one, and no key is cached twice.
    pub closed spec fn wf(&self) -> bool {
        &&& self.texts@.len() == self.colors@.len()
        &&& self.colors@.len() == self.entries@.len()
        &&& self.keys().no_duplicates()
    }

    /// An empty cache.
    pub fn new() -> (r: Self)
        ensures
            r.wf(),
            r.keys() == Seq::<GlyphKey>::empty(),
            r.slots() == Seq::<E>::empty(),
    {
        let r = GlyphCache { texts: Vec::new(), colors: Vec::new(), entries: Vec::new() };
        assert(r.keys() =~= Seq::<GlyphKey>::empty());
        assert(r.keys().no_duplicates());
        r
    }

    /// The number of cached glyphs.
    pub fn len(&self) -> (r: usize)
        requires
            self.wf(),
        ensures
            r == self.keys().len(),
            r == self.slots().len(),
    {
        self.entries.len()
    }

    /// The slot holding the glyph of `text` in `color`, if it is cached.
    pub fn find(&self, text: &String, color: Rgb) -> (r: Option<usize>)
        requires
            self.wf(),
        ensures
            r is Some <==> position(self.keys(), (text@, color)) >= 0,
            r matches Some(i) ==> i == position(self.keys(), (text@, color)),
    {
        let ghost k = (text@, color);
        let mut i: usize = self.texts.len();
        assert(self.keys().take(i as int) =~= self.keys());
        while i > 0
            invariant
                self.wf(),
                i <= self.texts@.len(),
                k == (text@, color),
                position(self.keys(), k) == position(self.keys().take(i as int), k),
            decreases i,
        {
            let j = i - 1;
            proof {
                assert(self.keys().take(i as int).drop_last() =~= self.keys().take(j as int));
                assert(self.keys().take(i as int).last() == (self.texts@[j as int]@, self.colors@[j as int]));
            }
            if self.colors[j] == color && self.texts[j] == *text {
                assert(self.keys().take(i as int).last() == k);
                return Some(j);
            }
            i = j;
        }
        None
    }

    /// The slot of the glyph of `text` in `color`: the cached one when there
    /// is one (and `entry` is dropped), else a new slot holding `entry`.
    pub fn insert(&mut self, text: &String, color: Rgb, entry: E) -> (r: usize)
        requires
            old(self).wf(),
        ensures
            final(self).wf(),
            final(self).keys() == keys_after(old(self).keys(), (text@, color)),
            r == slot_for(old(self).keys(), (text@, color)),
            position(old(self).keys(), (text@, color)) >= 0 ==> final(self).slots() == old(
                self,
            ).slots(),
            position(old(self).keys(), (text@, color)) < 0 ==> final(self).slots() == old(
                self,
            ).slots().push(entry),
    {
        proof {
            lemma_position(self.keys(), (text@, color));
        }
        match self.find(text, color) {
            Some(i) => i,
            None => {
                let ghost before = self.keys();
                let n = self.entries.len();
                assert(n == slot_for(before, (text@, color)));
                self.texts.push(text.clone());
                self.colors.push(color);
                self.entries.push(entry);
                assert(self.keys() =~= before.push((text@, color)));
                assert forall|i: int, j: int|
                    0 <= i < self.keys().len() && 0 <= j < self.keys().len() && i != j implies self.keys()[i]
                    != self.keys()[j] by {
                    if j == before.len() as int {
                        assert(before[i] != (text@, color));
                    } else if i == before.len() as int {
                        assert(before[j] != (text@, color));
                    }
                }
                n
            },
        }
    }

    /// The entry in slot `i`.
    pub fn entry(&self, i: usize) -> (r: &E)
        requires
            self.wf(),
            i < self.slots().len(),
        ensures
            *r == self.slots()[i as int],
    {
        &self.entries[i]
    }
}

/// Asking the cache for the same text and color twice gives the same slot,
/// and the second request adds nothing: equal keys share one entry.
pub proof fn lemma_same_key_same_slot(keys: Seq<GlyphKey>, k: GlyphKey)
    ensures
        position(keys_after(keys, k), k) == slot_for(keys, k),
        slot_for(keys_after(keys, k), k) == slot_for(keys, k),
        keys_after(keys_after(keys, k), k) == keys_after(keys, k),
{
    if position(keys, k) < 0 {
        assert(keys.push(k).drop_last() =~= keys);
    }
}

} // verus!
