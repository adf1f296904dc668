//! The charting layer's integer core: rasterizing a series of projected
//! dot-space points onto a canvas under one of the shape kinds, and the
//! dashed axis / border guide lines.
//!
//! Projecting data-space samples into dot space is the caller's side of
//! the boundary; everything from projected points to pixels is here.

use vstd::prelude::*;

use crate::PixelColor;
use crate::canvas::{Canvas, CanvasModel, line_drawn, put_dot, set_dot};

verus! {

/// The kinds of plotted data: a continuously sampled function, scatter
/// points, points joined by lines, a right-continuous staircase, or
/// bars dropped to the baseline.
#[derive(Clone, Copy, Debug, PartialEq, Eq, Structural)]
pub enum ShapeKind {
    Continuous,
    Points,
    Lines,
    Steps,
    Bars,
}

/// What one consecutive pair of projected points adds to the canvas:
/// - `Continuous` and `Lines` join the two points with one segment;
/// - `Steps` draw the horizontal top at the second point's row, then the
///   vertical connector at the first point's column;
/// - `Bars` draw the two `Steps` segments and then drop both columns to
///   the baseline row `height`;
/// - `Points` draw nothing pairwise.
pub open spec fn shape_step(
    m: CanvasModel,
    kind: ShapeKind,
    x1: int,
    y1: int,
    x2: int,
    y2: int,
    height: int,
    color: Option<PixelColor>,
) -> CanvasModel {
    match kind {
        ShapeKind::Points => m,
        ShapeKind::Continuous => line_drawn(m, x1, y1, x2, y2, color),
        ShapeKind::Lines => line_drawn(m, x1, y1, x2, y2, color),
        ShapeKind::Steps => line_drawn(line_drawn(m, x1, y2, x2, y2, color), x1, y1, x1, y2, color),
        ShapeKind::Bars => line_drawn(
            line_drawn(
                line_drawn(line_drawn(m, x1, y2, x2, y2, color), x1, y1, x1, y2, color),
                x1,
                height,
                x1,
                y1,
                color,
            ),
            x2,
            height,
            x2,
            y2,
            color,
        ),
    }
}

/// How many drawing steps a point sequence takes: one per point for
/// `Points`, one per consecutive pair otherwise.
pub open spec fn shape_steps(kind: ShapeKind, len: int) -> int {
    if kind == ShapeKind::Points {
        len
    } else if len <= 1 {
        0
    } else {
        len - 1
    }
}

/// The canvas after the first `n` drawing steps of a shape.
pub open spec fn shape_prefix(
    m: CanvasModel,
    kind: ShapeKind,
    pts: Seq<(u32, u32)>,
    height: int,
    color: Option<PixelColor>,
    n: int,
) -> CanvasModel
    decreases n,
{
    if n <= 0 {
        m
    } else {
        let prev = shape_prefix(m, kind, pts, height, color, n - 1);
        if kind == ShapeKind::Points {
            put_dot(prev, pts[n - 1].0 as int, pts[n - 1].1 as int, color)
        } else {
            shape_step(
                prev,
                kind,
                pts[n - 1].0 as int,
                pts[n - 1].1 as int,
                pts[n].0 as int,
                pts[n].1 as int,
                height,
                color,
            )
        }
    }
}

/// The canvas after a whole shape has been drawn over its projected
/// points.
pub open spec fn shape_drawn(
    m: CanvasModel,
    kind: ShapeKind,
    pts: Seq<(u32, u32)>,
    height: int,
    color: Option<PixelColor>,
) -> CanvasModel {
    shape_prefix(m, kind, pts, height, color, shape_steps(kind, pts.len() as int))
}

/// Every projected point (and the baseline) lies within one addressable
/// 16-bit square of dot space, so every drawn segment stays in range.
pub open spec fn points_in_range(pts: Seq<(u32, u32)>, height: int) -> bool {
    &&& 0 <= height <= 0xFFFF
    &&& forall|i: int|
        0 <= i < pts.len() ==> (#[trigger] pts[i]).0 <= 0xFFFF && pts[i].1 <= 0xFFFF
}

/// Sets one dot, plain or colored.
fn dot(canvas: &mut Canvas, x: u32, y: u32, color: Option<PixelColor>)
    requires
        old(canvas).wf(),
        x <= 0xFFFF,
        y <= 0xFFFF,
    ensures
        final(canvas).wf(),
        final(canvas)@ == put_dot(old(canvas)@, x as int, y as int, color),
{
    match color {
        Option::None => canvas.set(x, y),
        Option::Some(c) => canvas.set_colored(x, y, c),
    }
}

/// Draws one segment, plain or colored.
fn seg(canvas: &mut Canvas, x1: u32, y1: u32, x2: u32, y2: u32, color: Option<PixelColor>)
    requires
        old(canvas).wf(),
        x1 <= 0xFFFF,
        y1 <= 0xFFFF,
        x2 <= 0xFFFF,
        y2 <= 0xFFFF,
    ensures
        final(canvas).wf(),
        final(canvas)@ == line_drawn(
            old(canvas)@,
            x1 as int,
            y1 as int,
            x2 as int,
            y2 as int,
            color,
        ),
{
    match color {
        Option::None => canvas.line(x1, y1, x2, y2),
        Option::Some(c) => canvas.line_colored(x1, y1, x2, y2, c),
    }
}

/// Rasterizes one shape's projected points onto the canvas: a dot per
/// point for `Points`, and the pairwise segments of `shape_step` for the
/// join-based kinds. `height` is the baseline row that `Bars` drop to.
pub fn draw_shape(
    canvas: &mut Canvas,
    kind: ShapeKind,
    points: &Vec<(u32, u32)>,
    height: u32,
    color: Option<PixelColor>,
)
    requires
        old(canvas).wf(),
        points_in_range(points@, height as int),
    ensures
        final(canvas).wf(),
        final(canvas)@ == shape_drawn(old(canvas)@, kind, points@, height as int, color),
{
    match kind {
        ShapeKind::Points => {
            let mut i: usize = 0;
            while i < points.len()
                invariant
                    canvas.wf(),
                    points_in_range(points@, height as int),
                    i <= points@.len(),
                    canvas@ == shape_prefix(
                        old(canvas)@,
                        ShapeKind::Points,
                        points@,
                        height as int,
                        color,
                        i as int,
                    ),
                decreases points@.len() - i,
            {
                let (x, y) = points[i];
                dot(canvas, x, y, color);
                i = i + 1;
            }
        },
        _ => {
            if points.len() >= 2 {
                let mut i: usize = 0;
                while i < points.len() - 1
                    invariant
                        canvas.wf(),
                        points_in_range(points@, height as int),
                        points@.len() >= 2,
                        kind != ShapeKind::Points,
                        i <= points@.len() - 1,
                        canvas@ == shape_prefix(
                            old(canvas)@,
                            kind,
                            points@,
                            height as int,
                            color,
                            i as int,
                        ),
                    decreases points@.len() - 1 - i,
                {
                    let (x1, y1) = points[i];
                    let (x2, y2) = points[i + 1];
                    match kind {
                        ShapeKind::Points => {
                            proof {
                                assert(false);
                            }
                        },
                        ShapeKind::Continuous => {
                            seg(canvas, x1, y1, x2, y2, color);
                        },
                        ShapeKind::Lines => {
                            seg(canvas, x1, y1, x2, y2, color);
                        },
                        ShapeKind::Steps => {
                            seg(canvas, x1, y2, x2, y2, color);
                            seg(canvas, x1, y1, x1, y2, color);
                        },
                        ShapeKind::Bars => {
                            seg(canvas, x1, y2, x2, y2, color);
                            seg(canvas, x1, y1, x1, y2, color);
                            seg(canvas, x1, height, x1, y1, color);
                            seg(canvas, x2, height, x2, y2, color);
                        },
                    }
                    i = i + 1;
                }
            }
        },
    }
}

/// The canvas after the first `n` dot-rows of a dashed vertical line at
/// dot-column `i` have been considered: every third row gets a dot.
pub open spec fn vline_prefix(m: CanvasModel, i: int, n: int) -> CanvasModel
    decreases n,
{
    if n <= 0 {
        m
    } else {
        let prev = vline_prefix(m, i, n - 1);
        if (n - 1) % 3 == 0 {
            set_dot(prev, i, n - 1)
        } else {
            prev
        }
    }
}

/// The canvas after a dashed vertical guide line at dot-column `i`; a
/// column beyond the canvas width draws nothing.
pub open spec fn vline_drawn(m: CanvasModel, i: int, width: int, height: int) -> CanvasModel {
    if i <= width {
        vline_prefix(m, i, height + 1)
    } else {
        m
    }
}

/// The canvas after the first `n` dot-columns of a dashed horizontal
/// line at dot-row `height - j` have been considered.
pub open spec fn hline_prefix(m: CanvasModel, j: int, height: int, n: int) -> CanvasModel
    decreases n,
{
    if n <= 0 {
        m
    } else {
        let prev = hline_prefix(m, j, height, n - 1);
        if (n - 1) % 3 == 0 {
            set_dot(prev, n - 1, height - j)
        } else {
            prev
        }
    }
}

/// The canvas after a dashed horizontal guide line `j` dot-rows above
/// the baseline; a row beyond the canvas height draws nothing.
pub open spec fn hline_drawn(m: CanvasModel, j: int, width: int, height: int) -> CanvasModel {
    if j <= height {
        hline_prefix(m, j, height, width + 1)
    } else {
        m
    }
}

/// Draws a dashed vertical guide line at dot-column `i` (every third
/// dot-row), if `i` lies within the width.
pub fn vline(canvas: &mut Canvas, i: u32, width: u32, height: u32)
    requires
        old(canvas).wf(),
        width <= 0x1_FFFF,
        height <= 0x3_FFFF,
    ensures
        final(canvas).wf(),
        final(canvas)@ == vline_drawn(old(canvas)@, i as int, width as int, height as int),
{
    if i <= width {
        let mut j: u32 = 0;
        while j <= height
            invariant
                canvas.wf(),
                i <= 0x1_FFFF,
                width <= 0x1_FFFF,
                height <= 0x3_FFFF,
                j <= height + 1,
                canvas@ == vline_prefix(old(canvas)@, i as int, j as int),
            decreases height + 1 - j,
        {
            if j % 3 == 0 {
                canvas.set(i, j);
            }
            j = j + 1;
        }
    }
}

/// Draws a dashed horizontal guide line `j` dot-rows above the baseline
/// (every third dot-column), if `j` lies within the height.
pub fn hline(canvas: &mut Canvas, j: u32, width: u32, height: u32)
    requires
        old(canvas).wf(),
        width <= 0x1_FFFF,
        height <= 0x3_FFFF,
    ensures
        final(canvas).wf(),
        final(canvas)@ == hline_drawn(old(canvas)@, j as int, width as int, height as int),
{
    if j <= height {
        let mut i: u32 = 0;
        while i <= width
            invariant
                canvas.wf(),
                width <= 0x1_FFFF,
                height <= 0x3_FFFF,
                j <= height,
                i <= width + 1,
                canvas@ == hline_prefix(old(canvas)@, j as int, height as int, i as int),
            decreases width + 1 - i,
        {
            if i % 3 == 0 {
                canvas.set(i, height - j);
            }
            i = i + 1;
        }
    }
}

/// Which shape the three exclusive flags select: `Lines` when none is
/// set, the matching kind when exactly one is, nothing when several are.
pub open spec fn shape_of_flags(steps: bool, bars: bool, points: bool) -> Option<ShapeKind> {
    if steps && !bars && !points {
        Option::Some(ShapeKind::Steps)
    } else if !steps && bars && !points {
        Option::Some(ShapeKind::Bars)
    } else if !steps && !bars && points {
        Option::Some(ShapeKind::Points)
    } else if !steps && !bars && !points {
        Option::Some(ShapeKind::Lines)
    } else {
        Option::None
    }
}

/// Selects the shape kind from the mutually exclusive command flags;
/// more than one flag at once selects nothing.
pub fn shape_from_flags(steps: bool, bars: bool, points: bool) -> (r: Option<ShapeKind>)
    ensures
        r == shape_of_flags(steps, bars, points),
{
    match (steps, bars, points) {
        (true, false, false) => Option::Some(ShapeKind::Steps),
        (false, true, false) => Option::Some(ShapeKind::Bars),
        (false, false, true) => Option::Some(ShapeKind::Points),
        (false, false, false) => Option::Some(ShapeKind::Lines),
        _ => Option::None,
    }
}

/// The fixed five-color palette handed to concurrent series, in order.
pub open spec fn palette(i: int) -> PixelColor {
    if i == 0 {
        PixelColor::BrightWhite
    } else if i == 1 {
        PixelColor::BrightRed
    } else if i == 2 {
        PixelColor::BrightBlue
    } else if i == 3 {
        PixelColor::BrightYellow
    } else {
        PixelColor::Cyan
    }
}

/// The palette color for series `i` of at most five.
pub fn palette_color(i: usize) -> (c: PixelColor)
    requires
        i < 5,
    ensures
        c == palette(i as int),
{
    if i == 0 {
        PixelColor::BrightWhite
    } else if i == 1 {
        PixelColor::BrightRed
    } else if i == 2 {
        PixelColor::BrightBlue
    } else if i == 3 {
        PixelColor::BrightYellow
    } else {
        PixelColor::Cyan
    }
}

} // verus!
