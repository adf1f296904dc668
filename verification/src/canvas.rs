//! A growable grid of Braille cells, addressable by dot.
//!
//! Each character cell covers 2 dots horizontally and 4 vertically; the
//! dot at `(x, y)` lives in cell `(x/2, y/4)` at the bit given by the
//! standard Braille dot table. The grid is created lazily: a cell exists
//! once some dot operation has touched it, and the canvas only grows.

use vstd::prelude::*;

use crate::PixelColor;

verus! {

/// One character cell: a dot bitmask, an override character shown while
/// no dot is set, and the cell's color tag.
#[derive(Clone, Copy, Debug, PartialEq, Eq, Structural)]
pub struct Cell {
    pub mask: u8,
    pub ch: char,
    pub colored: bool,
    pub color: PixelColor,
}

/// The state of a cell nothing has touched yet.
pub open spec fn default_cell() -> Cell {
    Cell { mask: 0, ch: ' ', colored: false, color: PixelColor::White }
}

/// The Braille bit for dot `(x % 2, y % 4)`: rows hold `{0x01, 0x08}`,
/// `{0x02, 0x10}`, `{0x04, 0x20}`, `{0x40, 0x80}`.
pub open spec fn dot_bit(x: int, y: int) -> u8 {
    let r = y % 4;
    let c = x % 2;
    if r == 0 {
        if c == 0 { 0x01 } else { 0x08 }
    } else if r == 1 {
        if c == 0 { 0x02 } else { 0x10 }
    } else if r == 2 {
        if c == 0 { 0x04 } else { 0x20 }
    } else {
        if c == 0 { 0x40 } else { 0x80 }
    }
}

/// Executable lookup of the Braille dot table.
fn dot_bit_of(x: u32, y: u32) -> (b: u8)
    ensures
        b == dot_bit(x as int, y as int),
{
    let r: u32 = y % 4;
    let c: u32 = x % 2;
    if r == 0 {
        if c == 0 { 0x01 } else { 0x08 }
    } else if r == 1 {
        if c == 0 { 0x02 } else { 0x10 }
    } else if r == 2 {
        if c == 0 { 0x04 } else { 0x20 }
    } else {
        if c == 0 { 0x40 } else { 0x80 }
    }
}

/// Mathematical state of a canvas: the nominal size in cells, and the
/// rectangular grid of cells touched so far (row-major, `grid[cy][cx]`).
pub ghost struct CanvasModel {
    pub width: int,
    pub height: int,
    pub grid: Seq<Seq<Cell>>,
}

/// Number of cell rows the canvas has touched.
pub open spec fn grid_rows(m: CanvasModel) -> int {
    m.grid.len() as int
}

/// Number of cell columns the canvas has touched (the grid is rectangular).
pub open spec fn grid_cols(m: CanvasModel) -> int {
    if m.grid.len() == 0 {
        0
    } else {
        m.grid[0].len() as int
    }
}

/// A rectangular grid: every row has the length of the first.
pub open spec fn grid_rect(g: Seq<Seq<Cell>>) -> bool {
    forall|i: int| 0 <= i < g.len() ==> (#[trigger] g[i]).len() == grid_len0(g)
}

/// Length of the first row, 0 for an empty grid.
pub open spec fn grid_len0(g: Seq<Seq<Cell>>) -> int {
    if g.len() == 0 {
        0
    } else {
        g[0].len() as int
    }
}

/// The cell at `(cx, cy)`, defaulting for anything outside the touched grid.
pub open spec fn cell_at(m: CanvasModel, cx: int, cy: int) -> Cell {
    if 0 <= cy < grid_rows(m) && 0 <= cx < grid_cols(m) {
        m.grid[cy][cx]
    } else {
        default_cell()
    }
}

/// The grid after touching cell `(cx, cy)`: grown (with default cells) just
/// enough to contain it, existing contents kept.
pub open spec fn grow_grid(g: Seq<Seq<Cell>>, cx: int, cy: int) -> Seq<Seq<Cell>> {
    let nr = vstd::math::max(g.len() as int, cy + 1);
    let nc = vstd::math::max(grid_len0(g), cx + 1);
    Seq::new(nr as nat, |i: int| Seq::new(nc as nat, |j: int|
        if i < g.len() && j < grid_len0(g) {
            g[i][j]
        } else {
            default_cell()
        }))
}

/// The canvas after storing `cell` at `(cx, cy)`, touching it first.
pub open spec fn put_cell(m: CanvasModel, cx: int, cy: int, cell: Cell) -> CanvasModel {
    let g = grow_grid(m.grid, cx, cy);
    CanvasModel { grid: g.update(cy, g[cy].update(cx, cell)), ..m }
}

/// Writing one plain dot: OR the bit in, and reset the cell's character,
/// color flag and color — a plain dot evicts any per-cell override.
pub open spec fn set_dot(m: CanvasModel, x: int, y: int) -> CanvasModel {
    let cx = x / 2;
    let cy = y / 4;
    let c = cell_at(m, cx, cy);
    put_cell(m, cx, cy, Cell {
        mask: c.mask | dot_bit(x, y),
        ch: ' ',
        colored: false,
        color: PixelColor::White,
    })
}

/// Writing one colored dot: OR the bit in and color the whole cell.
pub open spec fn set_colored_dot(m: CanvasModel, x: int, y: int, color: PixelColor) -> CanvasModel {
    let cx = x / 2;
    let cy = y / 4;
    let c = cell_at(m, cx, cy);
    put_cell(m, cx, cy, Cell { mask: c.mask | dot_bit(x, y), ch: ' ', colored: true, color })
}

/// Either of the two dot writes, by whether a color was requested.
pub open spec fn put_dot(m: CanvasModel, x: int, y: int, color: Option<PixelColor>) -> CanvasModel {
    match color {
        Option::None => set_dot(m, x, y),
        Option::Some(c) => set_colored_dot(m, x, y, c),
    }
}

/// Replacing a whole cell with an override character.
pub open spec fn put_char(m: CanvasModel, x: int, y: int, c: char) -> CanvasModel {
    put_cell(m, x / 2, y / 4, Cell { mask: 0, ch: c, colored: false, color: PixelColor::White })
}

/// Clearing one dot's bit; everything else in the cell stays.
pub open spec fn unset_dot(m: CanvasModel, x: int, y: int) -> CanvasModel {
    let cx = x / 2;
    let cy = y / 4;
    let c = cell_at(m, cx, cy);
    put_cell(m, cx, cy, Cell { mask: c.mask & !dot_bit(x, y), ..c })
}

/// Flipping one dot's bit; everything else in the cell stays.
pub open spec fn toggle_dot(m: CanvasModel, x: int, y: int) -> CanvasModel {
    let cx = x / 2;
    let cy = y / 4;
    let c = cell_at(m, cx, cy);
    put_cell(m, cx, cy, Cell { mask: c.mask ^ dot_bit(x, y), ..c })
}

/// Whether the dot at `(x, y)` is set.
pub open spec fn dot_at(m: CanvasModel, x: int, y: int) -> bool {
    cell_at(m, x / 2, y / 4).mask & dot_bit(x, y) != 0
}

/// Distance between two coordinates along one axis.
pub open spec fn axis_diff(a: int, b: int) -> int {
    if a <= b {
        b - a
    } else {
        a - b
    }
}

/// A line segment is rasterized in `line_steps + 1` steps, one dot each.
pub open spec fn line_steps(x1: int, y1: int, x2: int, y2: int) -> int {
    vstd::math::max(axis_diff(x1, x2), axis_diff(y1, y2))
}

/// The dot drawn at step `i` of a segment: each axis advances by
/// `(i * diff) / steps`, truncated, toward the end point.
pub open spec fn line_point(x1: int, y1: int, x2: int, y2: int, i: int) -> (int, int) {
    let xd = axis_diff(x1, x2);
    let yd = axis_diff(y1, y2);
    let r = line_steps(x1, y1, x2, y2);
    if r == 0 {
        (x1, y1)
    } else {
        let xo = (i * xd) / r;
        let yo = (i * yd) / r;
        (if x1 <= x2 { x1 + xo } else { x1 - xo }, if y1 <= y2 { y1 + yo } else { y1 - yo })
    }
}

/// The canvas after the first `n` steps of a segment have been drawn.
pub open spec fn line_model(
    m: CanvasModel,
    x1: int,
    y1: int,
    x2: int,
    y2: int,
    color: Option<PixelColor>,
    n: nat,
) -> CanvasModel
    decreases n,
{
    if n == 0 {
        m
    } else {
        let p = line_point(x1, y1, x2, y2, n - 1);
        put_dot(line_model(m, x1, y1, x2, y2, color, (n - 1) as nat), p.0, p.1, color)
    }
}

/// The canvas after a whole segment has been drawn.
pub open spec fn line_drawn(
    m: CanvasModel,
    x1: int,
    y1: int,
    x2: int,
    y2: int,
    color: Option<PixelColor>,
) -> CanvasModel {
    line_model(m, x1, y1, x2, y2, color, (line_steps(x1, y1, x2, y2) + 1) as nat)
}

/// A segment short enough for the stepping arithmetic to stay in `u32`.
pub open spec fn segment_in_range(x1: int, y1: int, x2: int, y2: int) -> bool {
    &&& dot_in_range(x1, y1)
    &&& dot_in_range(x2, y2)
    &&& axis_diff(x1, x2) <= 0xFFFF
    &&& axis_diff(y1, y2) <= 0xFFFF
}

/// The canvas after the first `n` characters of `s` have been placed,
/// each two dot-columns further right.
pub open spec fn text_fold(m: CanvasModel, x: int, y: int, s: Seq<char>, n: int) -> CanvasModel
    decreases n,
{
    if n <= 0 {
        m
    } else {
        put_char(text_fold(m, x, y, s, n - 1), x + 2 * (n - 1), y, s[n - 1])
    }
}

/// How many characters a `text` call places: every character whose
/// horizontal offset `2 * i` stays within `max_width` (a character at
/// exactly `max_width` is still placed).
pub open spec fn chars_placed(max_width: int, len: int) -> int {
    vstd::math::min(len, max_width / 2 + 1)
}

/// Dot coordinates small enough that the cell address fits the stored
/// `u16` cell coordinates (`x/2` and `y/4` at most `0xFFFF`).
pub open spec fn dot_in_range(x: int, y: int) -> bool {
    0 <= x <= 0x1_FFFF && 0 <= y <= 0x3_FFFF
}

/// A canvas object that draws to the terminal using Braille characters.
///
/// Drawing outside the nominal dimensions expands the canvas.
#[derive(Clone, Debug, PartialEq, Eq)]
pub struct Canvas {
    cells: Vec<Vec<Cell>>,
    width: u16,
    height: u16,
}

impl View for Canvas {
    type V = CanvasModel;

    closed spec fn view(&self) -> CanvasModel {
        CanvasModel {
            width: self.width as int,
            height: self.height as int,
            grid: self.cells@.map_values(|r: Vec<Cell>| r@),
        }
    }
}

impl Canvas {
    /// The touched grid is rectangular and within addressable bounds.
    /// Constructors establish it and every method preserves it.
    pub closed spec fn wf(self) -> bool {
        &&& grid_rect(self.cells@.map_values(|r: Vec<Cell>| r@))
        &&& self.cells@.len() <= 0x1_0000
        &&& (self.cells@.len() > 0 ==> self.cells@[0]@.len() <= 0x1_0000)
    }

    /// Creates a new `Canvas` of `width` by `height` dots; the nominal size
    /// in cells is `(width / 2, height / 4)`.
    pub fn new(width: u32, height: u32) -> (c: Canvas)
        requires
            width / 2 <= 0xFFFF,
            height / 4 <= 0xFFFF,
        ensures
            c.wf(),
            c@ == (CanvasModel {
                width: (width / 2) as int,
                height: (height / 4) as int,
                grid: Seq::<Seq<Cell>>::empty(),
            }),
    {
        let c = Canvas {
            cells: Vec::new(),
            width: (width / 2) as u16,
            height: (height / 4) as u16,
        };
        proof {
            assert(c@.grid =~= Seq::<Seq<Cell>>::empty());
        }
        c
    }

    /// Clears the canvas: every touched cell is forgotten, the nominal
    /// size stays.
    pub fn clear(&mut self)
        requires
            old(self).wf(),
        ensures
            final(self).wf(),
            final(self)@ == (CanvasModel { grid: Seq::<Seq<Cell>>::empty(), ..old(self)@ }),
    {
        self.cells = Vec::new();
        proof {
            assert(self@.grid =~= Seq::<Seq<Cell>>::empty());
        }
    }

    /// Grows the touched grid to contain cell `(cx, cy)`.
    fn grow(&mut self, cx: usize, cy: usize)
        requires
            old(self).wf(),
            cx < 0x1_0000,
            cy < 0x1_0000,
        ensures
            final(self).wf(),
            final(self)@.grid =~= grow_grid(old(self)@.grid, cx as int, cy as int),
            final(self)@.width == old(self)@.width,
            final(self)@.height == old(self)@.height,
            grid_rows(final(self)@) > cy,
            grid_cols(final(self)@) > cx,
    {
        let ghost g0 = self@.grid;
        let rows = self.cells.len();
        let cols = if rows == 0 { 0 } else { self.cells[0].len() };
        let target_cols = if cols > cx { cols } else { cx + 1 };
        let target_rows = if rows > cy { rows } else { cy + 1 };

        let mut i: usize = 0;
        while i < self.cells.len()
            invariant
                self.cells@.len() == g0.len(),
                target_cols >= grid_len0(g0),
                target_cols <= 0x1_0000,
                i <= self.cells@.len(),
                forall|k: int| 0 <= k < i ==> (#[trigger] self.cells@[k])@.len() == target_cols,
                forall|k: int| i <= k < g0.len() ==> (#[trigger] self.cells@[k])@ == g0[k],
                forall|k: int, j: int|
                    0 <= k < i && 0 <= j < g0[k].len() ==> (#[trigger] self.cells@[k]@[j]) == g0[k][j],
                forall|k: int, j: int|
                    0 <= k < i && g0[k].len() <= j < target_cols
                        ==> (#[trigger] self.cells@[k]@[j]) == default_cell(),
                grid_rect(g0),
                self@.width == old(self)@.width,
                self@.height == old(self)@.height,
            decreases self.cells@.len() - i,
        {
            let row = &mut self.cells[i];
            while row.len() < target_cols
                invariant
                    row@.len() >= g0[i as int].len() || row@ == g0[i as int],
                    row@.len() <= target_cols,
                    row@.len() >= g0[i as int].len(),
                    forall|j: int| 0 <= j < g0[i as int].len() ==> (#[trigger] row@[j]) == g0[i as int][j],
                    forall|j: int|
                        g0[i as int].len() <= j < row@.len() ==> (#[trigger] row@[j]) == default_cell(),
                decreases target_cols - row@.len(),
            {
                row.push(Cell { mask: 0, ch: ' ', colored: false, color: PixelColor::White });
            }
            i = i + 1;
        }

        while self.cells.len() < target_rows
            invariant
                self.cells@.len() >= g0.len(),
                self.cells@.len() <= target_rows,
                target_rows <= 0x1_0000,
                target_cols <= 0x1_0000,
                forall|k: int| 0 <= k < self.cells@.len() ==> (#[trigger] self.cells@[k])@.len() == target_cols,
                forall|k: int, j: int|
                    0 <= k < g0.len() && 0 <= j < g0[k].len()
                        ==> (#[trigger] self.cells@[k]@[j]) == g0[k][j],
                forall|k: int, j: int|
                    0 <= k < g0.len() && g0[k].len() <= j < target_cols
                        ==> (#[trigger] self.cells@[k]@[j]) == default_cell(),
                forall|k: int, j: int|
                    g0.len() <= k < self.cells@.len() && 0 <= j < target_cols
                        ==> (#[trigger] self.cells@[k]@[j]) == default_cell(),
                grid_rect(g0),
                self@.width == old(self)@.width,
                self@.height == old(self)@.height,
            decreases target_rows - self.cells@.len(),
        {
            let mut fresh: Vec<Cell> = Vec::new();
            while fresh.len() < target_cols
                invariant
                    fresh@.len() <= target_cols,
                    forall|j: int| 0 <= j < fresh@.len() ==> (#[trigger] fresh@[j]) == default_cell(),
                decreases target_cols - fresh@.len(),
            {
                fresh.push(Cell { mask: 0, ch: ' ', colored: false, color: PixelColor::White });
            }
            self.cells.push(fresh);
        }

        proof {
            let gg = grow_grid(g0, cx as int, cy as int);
            let cur = self@.grid;
            assert(cur.len() == gg.len());
            assert forall|k: int| 0 <= k < gg.len() implies cur[k] =~= gg[k] by {
                assert(cur[k].len() == gg[k].len());
            }
            assert(cur =~= gg);
        }
    }

    /// Grows to contain cell `(cx, cy)` and reads it; an untouched cell
    /// reads as the default.
    fn touch(&mut self, cx: usize, cy: usize) -> (c: Cell)
        requires
            old(self).wf(),
            cx < 0x1_0000,
            cy < 0x1_0000,
        ensures
            final(self).wf(),
            final(self)@.grid =~= grow_grid(old(self)@.grid, cx as int, cy as int),
            final(self)@.width == old(self)@.width,
            final(self)@.height == old(self)@.height,
            grid_rows(final(self)@) > cy,
            grid_cols(final(self)@) > cx,
            c == cell_at(old(self)@, cx as int, cy as int),
    {
        self.grow(cx, cy);
        proof {
            assert(self@.grid[cy as int] == self.cells@[cy as int]@);
            assert(self@.grid[cy as int].len() == grid_len0(self@.grid));
        }
        self.cells[cy][cx]
    }

    /// Stores `cell` at `(cx, cy)`, which must already be in the grid.
    fn store(&mut self, cx: usize, cy: usize, cell: Cell)
        requires
            old(self).wf(),
            cy < grid_rows(old(self)@),
            cx < grid_cols(old(self)@),
        ensures
            final(self).wf(),
            final(self)@ == (CanvasModel {
                grid: old(self)@.grid.update(
                    cy as int,
                    old(self)@.grid[cy as int].update(cx as int, cell),
                ),
                ..old(self)@
            }),
    {
        proof {
            assert(self@.grid[cy as int] == self.cells@[cy as int]@);
            assert(self@.grid[cy as int].len() == grid_len0(self@.grid));
        }
        self.cells[cy][cx] = cell;
        proof {
            let t = old(self)@.grid.update(
                cy as int,
                old(self)@.grid[cy as int].update(cx as int, cell),
            );
            assert forall|i: int| 0 <= i < self@.grid.len() implies self@.grid[i] == t[i] by {
                assert(self@.grid[i] =~= t[i]);
            }
            assert(self@.grid =~= t);
            assert(grid_len0(self@.grid) == grid_len0(old(self)@.grid));
        }
    }

    /// Sets the dot at `(x, y)`; the cell's override character and color

    /// are reset.
    pub fn set(&mut self, x: u32, y: u32)
        requires
            old(self).wf(),
            dot_in_range(x as int, y as int),
        ensures
            final(self).wf(),
            final(self)@ == set_dot(old(self)@, x as int, y as int),
    {
        let cx = (x / 2) as usize;
        let cy = (y / 4) as usize;
        let c = self.touch(cx, cy);
        let bit = dot_bit_of(x, y);
        self.store(cx, cy, Cell {
            mask: c.mask | bit,
            ch: ' ',
            colored: false,
            color: PixelColor::White,
        });
    }

    /// Sets the dot at `(x, y)` and colors the whole cell.
    pub fn set_colored(&mut self, x: u32, y: u32, color: PixelColor)
        requires
            old(self).wf(),
            dot_in_range(x as int, y as int),
        ensures
            final(self).wf(),
            final(self)@ == set_colored_dot(old(self)@, x as int, y as int, color),
    {
        let cx = (x / 2) as usize;
        let cy = (y / 4) as usize;
        let c = self.touch(cx, cy);
        let bit = dot_bit_of(x, y);
        self.store(cx, cy, Cell { mask: c.mask | bit, ch: ' ', colored: true, color });
    }

    /// Sets a letter at the cell containing `(x, y)`: the cell's dots are
    /// dropped and the character takes over.
    pub fn set_char(&mut self, x: u32, y: u32, c: char)
        requires
            old(self).wf(),
            dot_in_range(x as int, y as int),
        ensures
            final(self).wf(),
            final(self)@ == put_char(old(self)@, x as int, y as int, c),
    {
        let cx = (x / 2) as usize;
        let cy = (y / 4) as usize;
        self.touch(cx, cy);
        self.store(cx, cy, Cell { mask: 0, ch: c, colored: false, color: PixelColor::White });
    }

    /// Deletes the dot at `(x, y)`; the rest of the cell stays as it was.
    pub fn unset(&mut self, x: u32, y: u32)
        requires
            old(self).wf(),
            dot_in_range(x as int, y as int),
        ensures
            final(self).wf(),
            final(self)@ == unset_dot(old(self)@, x as int, y as int),
    {
        let cx = (x / 2) as usize;
        let cy = (y / 4) as usize;
        let c = self.touch(cx, cy);
        let bit = dot_bit_of(x, y);
        self.store(cx, cy, Cell { mask: c.mask & !bit, ..c });
    }

    /// Toggles the dot at `(x, y)`; the rest of the cell stays as it was.
    pub fn toggle(&mut self, x: u32, y: u32)
        requires
            old(self).wf(),
            dot_in_range(x as int, y as int),
        ensures
            final(self).wf(),
            final(self)@ == toggle_dot(old(self)@, x as int, y as int),
    {
        let cx = (x / 2) as usize;
        let cy = (y / 4) as usize;
        let c = self.touch(cx, cy);
        let bit = dot_bit_of(x, y);
        self.store(cx, cy, Cell { mask: c.mask ^ bit, ..c });
    }

    /// Whether the dot at `(x, y)` is set; untouched cells read as unset.
    pub fn get(&self, x: u32, y: u32) -> (b: bool)
        requires
            self.wf(),
            dot_in_range(x as int, y as int),
        ensures
            b == dot_at(self@, x as int, y as int),
    {
        let cx = (x / 2) as usize;
        let cy = (y / 4) as usize;
        let bit = dot_bit_of(x, y);
        if cy < self.cells.len() {
            proof {
                assert(self@.grid[cy as int] == self.cells@[cy as int]@);
                assert(self@.grid[cy as int].len() == grid_len0(self@.grid));
            }
            let row = &self.cells[cy];
            if cx < row.len() {
                return row[cx].mask & bit != 0;
            }
        }
        proof {
            assert(cell_at(self@, cx as int, cy as int) == default_cell());
            assert(0u8 & dot_bit(x as int, y as int) == 0) by (bit_vector);
        }
        false
    }

    /// Number of touched cell rows.
    pub(crate) fn grid_row_count(&self) -> (n: usize)
        ensures
            n == grid_rows(self@),
    {
        self.cells.len()
    }

    /// Number of touched cell columns.
    pub(crate) fn grid_col_count(&self) -> (n: usize)
        requires
            self.wf(),
        ensures
            n == grid_cols(self@),
    {
        if self.cells.len() == 0 {
            0
        } else {
            self.cells[0].len()
        }
    }

    /// Length of one touched row (they are all equal).
    pub(crate) fn grid_row_len(&self, cy: usize) -> (n: usize)
        requires
            self.wf(),
            cy < grid_rows(self@),
        ensures
            n == grid_cols(self@),
    {
        proof {
            assert(self@.grid[cy as int] == self.cells@[cy as int]@);
            assert(self@.grid[cy as int].len() == grid_len0(self@.grid));
        }
        self.cells[cy].len()
    }

    /// The touched cell at `(cx, cy)`.
    pub(crate) fn grid_cell(&self, cx: usize, cy: usize) -> (c: Cell)
        requires
            self.wf(),
            cy < grid_rows(self@),
            cx < grid_cols(self@),
        ensures
            c == cell_at(self@, cx as int, cy as int),
    {
        proof {
            assert(self@.grid[cy as int] == self.cells@[cy as int]@);
            assert(self@.grid[cy as int].len() == grid_len0(self@.grid));
        }
        self.cells[cy][cx]
    }

    /// The nominal width in cells.
    pub(crate) fn nominal_width(&self) -> (w: u16)
        ensures
            w == self@.width,
    {
        self.width
    }

    /// The nominal height in cells.
    pub(crate) fn nominal_height(&self) -> (h: u16)
        ensures
            h == self@.height,
    {
        self.height
    }

    /// Draws `text` starting at `(x, y)` (its top-left), one character per
    /// two dot-columns, stopping once the horizontal offset exceeds
    /// `max_width`.
    pub fn text(&mut self, x: u32, y: u32, max_width: u32, text: &str)
        requires
            old(self).wf(),
            x + max_width <= 0x1_FFFF,
            0 <= y <= 0x3_FFFF,
            text@.len() <= 0x7FFF_FFFF,
        ensures
            final(self).wf(),
            final(self)@ == text_fold(
                old(self)@,
                x as int,
                y as int,
                text@,
                chars_placed(max_width as int, text@.len() as int),
            ),
    {
        let n = text.unicode_len();
        let cap: usize = (max_width / 2 + 1) as usize;
        let placed: usize = if n < cap {
            n
        } else {
            cap
        };
        let mut i: usize = 0;
        while i < placed
            invariant
                self.wf(),
                x + max_width <= 0x1_FFFF,
                0 <= y <= 0x3_FFFF,
                i <= placed,
                n == text@.len(),
                placed == chars_placed(max_width as int, text@.len() as int),
                placed <= max_width / 2 + 1,
                self@ == text_fold(old(self)@, x as int, y as int, text@, i as int),
            decreases placed - i,
        {
            let c = text.get_char(i);
            self.set_char(x + (i as u32) * 2, y, c);
            i = i + 1;
        }
    }

    /// Draws the segment step by step; shared by `line` and `line_colored`.
    fn line_opt(&mut self, x1: u32, y1: u32, x2: u32, y2: u32, color: Option<PixelColor>)
        requires
            old(self).wf(),
            segment_in_range(x1 as int, y1 as int, x2 as int, y2 as int),
        ensures
            final(self).wf(),
            final(self)@ == line_drawn(
                old(self)@,
                x1 as int,
                y1 as int,
                x2 as int,
                y2 as int,
                color,
            ),
    {
        let xdiff: u32 = if x1 > x2 { x1 - x2 } else { x2 - x1 };
        let ydiff: u32 = if y1 > y2 { y1 - y2 } else { y2 - y1 };
        let r: u32 = if xdiff > ydiff { xdiff } else { ydiff };

        let mut i: u32 = 0;
        while i <= r
            invariant
                self.wf(),
                segment_in_range(x1 as int, y1 as int, x2 as int, y2 as int),
                xdiff == axis_diff(x1 as int, x2 as int),
                ydiff == axis_diff(y1 as int, y2 as int),
                r == line_steps(x1 as int, y1 as int, x2 as int, y2 as int),
                i <= r + 1,
                self@ == line_model(
                    old(self)@,
                    x1 as int,
                    y1 as int,
                    x2 as int,
                    y2 as int,
                    color,
                    i as nat,
                ),
            decreases r + 1 - i,
        {
            let mut x: u32 = x1;
            let mut y: u32 = y1;

            if ydiff != 0 {
                proof {
                    assert(i * ydiff <= r * ydiff) by (nonlinear_arith)
                        requires
                            i <= r,
                            0 <= ydiff,
                    ;
                    vstd::arithmetic::div_mod::lemma_div_is_ordered(
                        i as int * ydiff as int,
                        r as int * ydiff as int,
                        r as int,
                    );
                    vstd::arithmetic::div_mod::lemma_div_multiples_vanish(
                        ydiff as int,
                        r as int,
                    );
                    assert(r * ydiff <= 0xFFFF * 0xFFFF) by (nonlinear_arith)
                        requires
                            r <= 0xFFFF,
                            ydiff <= 0xFFFF,
                    ;
                }
                let off: u32 = (i * ydiff) / r;
                if y1 <= y2 {
                    y = y1 + off;
                } else {
                    y = y1 - off;
                }
            }
            if xdiff != 0 {
                proof {
                    assert(i * xdiff <= r * xdiff) by (nonlinear_arith)
                        requires
                            i <= r,
                            0 <= xdiff,
                    ;
                    vstd::arithmetic::div_mod::lemma_div_is_ordered(
                        i as int * xdiff as int,
                        r as int * xdiff as int,
                        r as int,
                    );
                    vstd::arithmetic::div_mod::lemma_div_multiples_vanish(
                        xdiff as int,
                        r as int,
                    );
                    assert(r * xdiff <= 0xFFFF * 0xFFFF) by (nonlinear_arith)
                        requires
                            r <= 0xFFFF,
                            xdiff <= 0xFFFF,
                    ;
                }
                let off: u32 = (i * xdiff) / r;
                if x1 <= x2 {
                    x = x1 + off;
                } else {
                    x = x1 - off;
                }
            }

            proof {
                let rr = line_steps(x1 as int, y1 as int, x2 as int, y2 as int);
                if rr != 0 {
                    vstd::arithmetic::div_mod::lemma_div_of0(rr);
                    if ydiff == 0 {
                        assert(i as int * ydiff as int == 0) by (nonlinear_arith)
                            requires
                                ydiff == 0,
                        ;
                    }
                    if xdiff == 0 {
                        assert(i as int * xdiff as int == 0) by (nonlinear_arith)
                            requires
                                xdiff == 0,
                        ;
                    }
                }
                assert((x as int, y as int) == line_point(
                    x1 as int,
                    y1 as int,
                    x2 as int,
                    y2 as int,
                    i as int,
                ));
            }
            match color {
                Option::None => self.set(x, y),
                Option::Some(c) => self.set_colored(x, y, c),
            }
            i = i + 1;
        }
    }

    /// Draws a line from `(x1, y1)` to `(x2, y2)` onto the `Canvas`.
    pub fn line(&mut self, x1: u32, y1: u32, x2: u32, y2: u32)
        requires
            old(self).wf(),
            segment_in_range(x1 as int, y1 as int, x2 as int, y2 as int),
        ensures
            final(self).wf(),
            final(self)@ == line_drawn(
                old(self)@,
                x1 as int,
                y1 as int,
                x2 as int,
                y2 as int,
                Option::None,
            ),
    {
        self.line_opt(x1, y1, x2, y2, Option::None)
    }

    /// Draws a line from `(x1, y1)` to `(x2, y2)` in the given color.
    pub fn line_colored(&mut self, x1: u32, y1: u32, x2: u32, y2: u32, color: PixelColor)
        requires
            old(self).wf(),
            segment_in_range(x1 as int, y1 as int, x2 as int, y2 as int),
        ensures
            final(self).wf(),
            final(self)@ == line_drawn(
                old(self)@,
                x1 as int,
                y1 as int,
                x2 as int,
                y2 as int,
                Option::Some(color),
            ),
    {
        self.line_opt(x1, y1, x2, y2, Option::Some(color))
    }
}

/// The cell just stored by `put_cell` is the cell read back at its address.
pub proof fn lemma_put_cell_same(m: CanvasModel, cx: int, cy: int, cell: Cell)
    requires
        0 <= cx,
        0 <= cy,
    ensures
        cell_at(put_cell(m, cx, cy, cell), cx, cy) == cell,
{
}

/// `put_cell` leaves every other cell as it was.
pub proof fn lemma_put_cell_other(m: CanvasModel, cx: int, cy: int, cell: Cell, ox: int, oy: int)
    requires
        0 <= cx,
        0 <= cy,
        (ox, oy) != (cx, cy),
    ensures
        cell_at(put_cell(m, cx, cy, cell), ox, oy) == cell_at(m, ox, oy),
{
}

/// Every Braille dot bit is one of the eight nonzero table entries.
pub proof fn lemma_dot_bit_nonzero(x: int, y: int)
    ensures
        dot_bit(x, y) != 0,
{
}

/// Setting a dot makes it read back as set, and unsetting it afterwards
/// makes it read back as unset, whatever the canvas held before.
pub proof fn lemma_set_get_unset(m: CanvasModel, x: int, y: int)
    requires
        dot_in_range(x, y),
    ensures
        dot_at(set_dot(m, x, y), x, y),
        !dot_at(unset_dot(set_dot(m, x, y), x, y), x, y),
{
    let b = dot_bit(x, y);
    let c0 = cell_at(m, x / 2, y / 4);
    lemma_put_cell_same(m, x / 2, y / 4, Cell {
        mask: c0.mask | b,
        ch: ' ',
        colored: false,
        color: PixelColor::White,
    });
    let c1 = cell_at(set_dot(m, x, y), x / 2, y / 4);
    let m0 = c0.mask;
    assert(c1.mask == m0 | b);
    assert(b != 0 ==> ((m0 | b) & b) != 0) by (bit_vector);
    lemma_dot_bit_nonzero(x, y);
    lemma_put_cell_same(set_dot(m, x, y), x / 2, y / 4, Cell { mask: c1.mask & !b, ..c1 });
    assert((((m0 | b) & !b) & b) == 0) by (bit_vector);
}

/// Toggling a dot twice restores its original reading, whatever the
/// canvas held before.
pub proof fn lemma_toggle_twice(m: CanvasModel, x: int, y: int)
    requires
        dot_in_range(x, y),
    ensures
        dot_at(toggle_dot(toggle_dot(m, x, y), x, y), x, y) == dot_at(m, x, y),
{
    let b = dot_bit(x, y);
    let c0 = cell_at(m, x / 2, y / 4);
    lemma_put_cell_same(m, x / 2, y / 4, Cell { mask: c0.mask ^ b, ..c0 });
    let c1 = cell_at(toggle_dot(m, x, y), x / 2, y / 4);
    let m0 = c0.mask;
    lemma_put_cell_same(toggle_dot(m, x, y), x / 2, y / 4, Cell { mask: c1.mask ^ b, ..c1 });
    assert(((m0 ^ b) ^ b) == m0) by (bit_vector);
}

/// A degenerate segment whose two end points coincide takes a single
/// step and sets exactly the one dot at its end point: the whole canvas
/// changes exactly as one `set` would change it.
pub proof fn lemma_line_degenerate(m: CanvasModel, x: int, y: int, color: Option<PixelColor>)
    requires
        dot_in_range(x, y),
    ensures
        line_drawn(m, x, y, x, y, color) == put_dot(m, x, y, color),
{
    assert(line_steps(x, y, x, y) == 0);
    assert(line_point(x, y, x, y, 0) == (x, y));
    assert(line_model(m, x, y, x, y, color, 1nat) == put_dot(
        line_model(m, x, y, x, y, color, 0nat),
        x,
        y,
        color,
    ));
}

/// Distinct dot positions within one cell carry disjoint bits.
proof fn lemma_dot_bits_disjoint(x: int, y: int, ox: int, oy: int)
    requires
        x % 2 != ox % 2 || y % 4 != oy % 4,
    ensures
        dot_bit(x, y) & dot_bit(ox, oy) == 0,
{
    let b1 = dot_bit(x, y);
    let b2 = dot_bit(ox, oy);
    assert((b1 == 1 || b1 == 2 || b1 == 4 || b1 == 8 || b1 == 16 || b1 == 32 || b1 == 64 || b1
        == 128) && (b2 == 1 || b2 == 2 || b2 == 4 || b2 == 8 || b2 == 16 || b2 == 32 || b2 == 64
        || b2 == 128) && b1 != b2);
    assert(((b1 == 1 || b1 == 2 || b1 == 4 || b1 == 8 || b1 == 16 || b1 == 32 || b1 == 64 || b1
        == 128) && (b2 == 1 || b2 == 2 || b2 == 4 || b2 == 8 || b2 == 16 || b2 == 32 || b2 == 64
        || b2 == 128) && b1 != b2) ==> b1 & b2 == 0) by (bit_vector);
}

/// A degenerate segment sets exactly one dot: the dot at its end point
/// reads as set afterwards, and every other dot of the canvas reads
/// exactly as it did before.
pub proof fn lemma_line_degenerate_one_dot(
    m: CanvasModel,
    x: int,
    y: int,
    ox: int,
    oy: int,
    color: Option<PixelColor>,
)
    requires
        dot_in_range(x, y),
        dot_in_range(ox, oy),
        (ox, oy) != (x, y),
    ensures
        dot_at(line_drawn(m, x, y, x, y, color), x, y),
        dot_at(line_drawn(m, x, y, x, y, color), ox, oy) == dot_at(m, ox, oy),
{
    lemma_line_degenerate(m, x, y, color);
    let cx = x / 2;
    let cy = y / 4;
    let b = dot_bit(x, y);
    let c0 = cell_at(m, cx, cy);
    let m0 = c0.mask;
    let after = put_dot(m, x, y, color);
    match color {
        Option::None => {
            lemma_put_cell_same(m, cx, cy, Cell {
                mask: m0 | b,
                ch: ' ',
                colored: false,
                color: PixelColor::White,
            });
        },
        Option::Some(c) => {
            lemma_put_cell_same(m, cx, cy, Cell { mask: m0 | b, ch: ' ', colored: true, color: c });
        },
    }
    lemma_dot_bit_nonzero(x, y);
    assert(b != 0 ==> ((m0 | b) & b) != 0) by (bit_vector);
    assert(cell_at(after, cx, cy).mask == m0 | b);

    if ox / 2 != cx || oy / 4 != cy {
        match color {
            Option::None => {
                lemma_put_cell_other(m, cx, cy, Cell {
                    mask: m0 | b,
                    ch: ' ',
                    colored: false,
                    color: PixelColor::White,
                }, ox / 2, oy / 4);
            },
            Option::Some(c) => {
                lemma_put_cell_other(m, cx, cy, Cell {
                    mask: m0 | b,
                    ch: ' ',
                    colored: true,
                    color: c,
                }, ox / 2, oy / 4);
            },
        }
    } else {
        // Same cell, so the dots differ in their position within it.
        vstd::arithmetic::div_mod::lemma_fundamental_div_mod(x, 2);
        vstd::arithmetic::div_mod::lemma_fundamental_div_mod(ox, 2);
        vstd::arithmetic::div_mod::lemma_fundamental_div_mod(y, 4);
        vstd::arithmetic::div_mod::lemma_fundamental_div_mod(oy, 4);
        assert(x % 2 != ox % 2 || y % 4 != oy % 4);
        lemma_dot_bits_disjoint(ox, oy, x, y);
        let b2 = dot_bit(ox, oy);
        assert(b2 & b == 0 ==> (((m0 | b) & b2 != 0) == (m0 & b2 != 0))) by (bit_vector);
    }
}

} // verus!
