//! A terminal plotting library: a sub-pixel addressable canvas built on
//! Unicode Braille cells, with a charting layer that rasterizes numeric
//! series (lines, steps, bars, points) onto it.
//!
//! The canvas, the rasterization of projected points, the histogram
//! counting and the text assembly are all verified; mapping data-space
//! samples to dot-space points (floating-point scaling) belongs to the
//! application around the library.

use vstd::prelude::*;

pub mod canvas;
pub mod chart;
pub mod compose;
pub mod hist;
pub mod render;

verus! {

/// The named palette for colored series. `White` is the default; the
/// remaining five are handed out to concurrent series in this order.
#[derive(Clone, Copy, Debug, PartialEq, Eq, Structural)]
pub enum PixelColor {
    White,
    BrightWhite,
    BrightRed,
    BrightBlue,
    BrightYellow,
    Cyan,
}

/// The plot plugin as the host shell sees it: the unit around which the
/// application layer builds its command handlers.
pub struct PluginPlot {}

} // verus!
