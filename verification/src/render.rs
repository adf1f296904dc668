//! Serializing a canvas to text: one string per cell row, cells shown as
//! their override character, a bare Braille glyph, or a color-wrapped
//! Braille glyph.

use vstd::prelude::*;

use crate::PixelColor;
use crate::canvas::{Canvas, CanvasModel, Cell, cell_at, grid_cols, grid_rows};

verus! {

/// The two-digit ANSI foreground code for each palette color, as
/// `owo_colors` writes it.
pub open spec fn fg_code(c: PixelColor) -> Seq<char> {
    match c {
        PixelColor::White => seq!['3', '7'],
        PixelColor::BrightWhite => seq!['9', '7'],
        PixelColor::BrightRed => seq!['9', '1'],
        PixelColor::BrightBlue => seq!['9', '4'],
        PixelColor::BrightYellow => seq!['9', '3'],
        PixelColor::Cyan => seq!['3', '6'],
    }
}

/// Text wrapped in a foreground-color escape: `ESC [ <code> m`, the text,
/// then the return to the default foreground, `ESC [ 3 9 m`.
pub open spec fn painted(body: Seq<char>, c: PixelColor) -> Seq<char> {
    seq!['\u{1b}', '['] + fg_code(c) + seq!['m'] + body + seq!['\u{1b}', '[', '3', '9', 'm']
}

/// The Braille character whose code point is `0x2800 + mask`.
pub uninterp spec fn braille_of(mask: u8) -> char;

/// Relies on char::from_u32: every value in `0x2800 ..= 0x28FF` is a
/// valid code point (the Braille block), so the call returns the
/// character with exactly that code point, determined by the mask alone.
#[verifier::external_body]
fn braille_glyph(mask: u8) -> (c: char)
    ensures
        c == braille_of(mask),
        c as u32 == 0x2800 + mask as u32,
{
    char::from_u32(0x2800 + mask as u32).unwrap()
}

/// Relies on String::push: it appends the given character.
#[verifier::external_body]
fn push_char(s: &mut String, c: char)
    ensures
        final(s)@ == old(s)@.push(c),
{
    s.push(c);
}

/// Relies on owo_colors's `OwoColorize::color` on a `&str`: its display
/// form is the ANSI foreground escape of the color, the text itself, and
/// the default-foreground escape, exactly as `painted` spells out.
#[verifier::external_body]
pub(crate) fn paint_text(s: &str, color: PixelColor) -> (r: Vec<char>)
    ensures
        r@ == painted(s@, color),
{
    let ansi = match color {
        PixelColor::White => owo_colors::AnsiColors::White,
        PixelColor::BrightWhite => owo_colors::AnsiColors::BrightWhite,
        PixelColor::BrightRed => owo_colors::AnsiColors::BrightRed,
        PixelColor::BrightBlue => owo_colors::AnsiColors::BrightBlue,
        PixelColor::BrightYellow => owo_colors::AnsiColors::BrightYellow,
        PixelColor::Cyan => owo_colors::AnsiColors::Cyan,
    };
    format!("{}", owo_colors::OwoColorize::color(&s, ansi)).chars().collect()
}

/// How one cell is rendered: its override character while no dot is set,
/// else the Braille glyph of its mask, color-wrapped when colored.
pub open spec fn render_cell(c: Cell) -> Seq<char> {
    if c.mask == 0 {
        seq![c.ch]
    } else if !c.colored {
        seq![braille_of(c.mask)]
    } else {
        painted(seq![braille_of(c.mask)], c.color)
    }
}

/// Serialized width in cells: the nominal width or the widest touched
/// column, whichever is larger, plus one.
pub open spec fn render_width(m: CanvasModel) -> int {
    vstd::math::max(m.width, grid_cols(m) - 1) + 1
}

/// Serialized height in cell rows, by the same rule as the width.
pub open spec fn render_height(m: CanvasModel) -> int {
    vstd::math::max(m.height, grid_rows(m) - 1) + 1
}

/// The first `n` cells of row `cy`, rendered and concatenated.
pub open spec fn row_prefix(m: CanvasModel, cy: int, n: int) -> Seq<char>
    decreases n,
{
    if n <= 0 {
        Seq::empty()
    } else {
        row_prefix(m, cy, n - 1) + render_cell(cell_at(m, n - 1, cy))
    }
}

/// One whole serialized cell row.
pub open spec fn row_chars(m: CanvasModel, cy: int) -> Seq<char> {
    row_prefix(m, cy, render_width(m))
}

/// The first `n` rows joined by newlines.
pub open spec fn frame_prefix(m: CanvasModel, n: int) -> Seq<char>
    decreases n,
{
    if n <= 0 {
        Seq::empty()
    } else if n == 1 {
        row_chars(m, 0)
    } else {
        frame_prefix(m, n - 1) + seq!['\n'] + row_chars(m, n - 1)
    }
}

/// The whole canvas as one text block: rows joined by newlines.
pub open spec fn frame_model(m: CanvasModel) -> Seq<char> {
    frame_prefix(m, render_height(m))
}

/// Appends the rendering of one cell to a row under construction.
fn push_cell(row: &mut Vec<char>, cell: Cell)
    ensures
        final(row)@ == old(row)@ + render_cell(cell),
{
    if cell.mask == 0 {
        row.push(cell.ch);
        proof {
            assert(row@ =~= old(row)@ + seq![cell.ch]);
        }
    } else if !cell.colored {
        row.push(braille_glyph(cell.mask));
        proof {
            assert(row@ =~= old(row)@ + seq![braille_of(cell.mask)]);
        }
    } else {
        let mut glyph = String::new();
        push_char(&mut glyph, braille_glyph(cell.mask));
        proof {
            assert(glyph@ =~= seq![braille_of(cell.mask)]);
        }
        let wrapped = paint_text(glyph.as_str(), cell.color);
        let mut k: usize = 0;
        while k < wrapped.len()
            invariant
                k <= wrapped@.len(),
                wrapped@ == painted(seq![braille_of(cell.mask)], cell.color),
                row@ == old(row)@ + wrapped@.subrange(0, k as int),
            decreases wrapped@.len() - k,
        {
            row.push(wrapped[k]);
            proof {
                assert(wrapped@.subrange(0, k + 1) =~= wrapped@.subrange(0, k as int).push(
                    wrapped@[k as int],
                ));
                assert(row@ =~= old(row)@ + wrapped@.subrange(0, k + 1));
            }
            k = k + 1;
        }
        proof {
            assert(wrapped@.subrange(0, wrapped@.len() as int) =~= wrapped@);
        }
    }
}

/// Builds an owned `String` from a sequence of characters.
fn string_of(chars: &Vec<char>) -> (s: String)
    ensures
        s@ == chars@,
{
    let mut s = String::new();
    let mut i: usize = 0;
    while i < chars.len()
        invariant
            i <= chars@.len(),
            s@ == chars@.subrange(0, i as int),
        decreases chars@.len() - i,
    {
        push_char(&mut s, chars[i]);
        proof {
            assert(chars@.subrange(0, i + 1) =~= chars@.subrange(0, i as int).push(
                chars@[i as int],
            ));
        }
        i = i + 1;
    }
    proof {
        assert(chars@.subrange(0, chars@.len() as int) =~= chars@);
    }
    s
}

impl Canvas {
    /// Reads the cell at `(cx, cy)` without touching the canvas.
    fn cell_fetch(&self, cx: usize, cy: usize) -> (c: Cell)
        requires
            self.wf(),
        ensures
            c == cell_at(self@, cx as int, cy as int),
    {
        if cy < self.grid_row_count() {
            let row_len = self.grid_row_len(cy);
            if cx < row_len {
                return self.grid_cell(cx, cy);
            }
        }
        Cell { mask: 0, ch: ' ', colored: false, color: PixelColor::White }
    }

    /// One serialized cell row.
    fn row_of(&self, cy: usize, ncells: usize) -> (row: Vec<char>)
        requires
            self.wf(),
        ensures
            row@ == row_prefix(self@, cy as int, ncells as int),
    {
        let mut row: Vec<char> = Vec::new();
        let mut cx: usize = 0;
        while cx < ncells
            invariant
                self.wf(),
                cx <= ncells,
                row@ == row_prefix(self@, cy as int, cx as int),
            decreases ncells - cx,
        {
            let cell = self.cell_fetch(cx, cy);
            push_cell(&mut row, cell);
            cx = cx + 1;
        }
        row
    }

    /// Returns one `String` per cell row of the canvas, from row 0 to the
    /// last nominal or touched row; each row covers every nominal or
    /// touched column.
    pub fn rows(&self) -> (r: Vec<String>)
        requires
            self.wf(),
        ensures
            r@.len() == render_height(self@),
            forall|i: int| 0 <= i < r@.len() ==> (#[trigger] r@[i])@ == row_chars(self@, i),
    {
        let ncells = self.render_width_cells();
        let nrows = self.render_height_cells();
        let mut r: Vec<String> = Vec::new();
        let mut cy: usize = 0;
        while cy < nrows
            invariant
                self.wf(),
                cy <= nrows,
                ncells == render_width(self@),
                nrows == render_height(self@),
                r@.len() == cy,
                forall|i: int| 0 <= i < cy ==> (#[trigger] r@[i])@ == row_chars(self@, i),
            decreases nrows - cy,
        {
            let row = self.row_of(cy, ncells);
            r.push(string_of(&row));
            cy = cy + 1;
        }
        r
    }

    /// The canvas as one text block: rows joined by newlines.
    pub fn frame(&self) -> (s: String)
        requires
            self.wf(),
        ensures
            s@ == frame_model(self@),
    {
        let ncells = self.render_width_cells();
        let nrows = self.render_height_cells();
        let mut joined: Vec<char> = Vec::new();
        let mut cy: usize = 0;
        while cy < nrows
            invariant
                self.wf(),
                cy <= nrows,
                ncells == render_width(self@),
                nrows == render_height(self@),
                joined@ == frame_prefix(self@, cy as int),
            decreases nrows - cy,
        {
            if cy > 0 {
                joined.push('\n');
                proof {
                    assert(joined@ =~= frame_prefix(self@, cy as int) + seq!['\n']);
                }
            }
            let row = self.row_of(cy, ncells);
            let mut k: usize = 0;
            let ghost mid = joined@;
            while k < row.len()
                invariant
                    k <= row@.len(),
                    joined@ == mid + row@.subrange(0, k as int),
                decreases row@.len() - k,
            {
                joined.push(row[k]);
                proof {
                    assert(row@.subrange(0, k + 1) =~= row@.subrange(0, k as int).push(
                        row@[k as int],
                    ));
                    assert(joined@ =~= mid + row@.subrange(0, k + 1));
                }
                k = k + 1;
            }
            proof {
                assert(row@.subrange(0, row@.len() as int) =~= row@);
                if cy == 0 {
                    assert(mid + row@ =~= row@);
                    assert(joined@ == frame_prefix(self@, cy + 1));
                } else {
                    assert(joined@ == frame_prefix(self@, cy + 1));
                }
            }
            cy = cy + 1;
        }
        string_of(&joined)
    }

    /// Serialized width in cells, as an executable count.
    fn render_width_cells(&self) -> (n: usize)
        requires
            self.wf(),
        ensures
            n == render_width(self@),
    {
        let w = self.nominal_width() as usize;
        let cols = self.grid_col_count();
        if cols > w + 1 {
            cols
        } else {
            w + 1
        }
    }

    /// Serialized height in cell rows, as an executable count.
    fn render_height_cells(&self) -> (n: usize)
        requires
            self.wf(),
        ensures
            n == render_height(self@),
    {
        let h = self.nominal_height() as usize;
        let rows = self.grid_row_count();
        if rows > h + 1 {
            rows
        } else {
            h + 1
        }
    }
}

} // verus!
