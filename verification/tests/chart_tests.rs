use nu_plugin_plot::PixelColor;
use nu_plugin_plot::canvas::Canvas;
use nu_plugin_plot::chart::{ShapeKind, draw_shape, hline, palette_color, shape_from_flags, vline};

#[test]
fn bars_outline_dot_set() {
    let mut canvas = Canvas::new(16, 12);
    let points: Vec<(u32, u32)> = vec![(0, 4), (4, 2), (8, 3)];
    draw_shape(&mut canvas, ShapeKind::Bars, &points, 8, None);

    // First pair (0,4)-(4,2): horizontal top at the second point's row...
    for x in 0..=4 {
        assert!(canvas.get(x, 2), "top segment missing at ({}, 2)", x);
    }
    // ...the vertical connector at the first point's column...
    for y in 2..=4 {
        assert!(canvas.get(0, y), "connector missing at (0, {})", y);
    }
    // ...and both columns dropped to the baseline.
    for y in 4..=8 {
        assert!(canvas.get(0, y), "baseline drop missing at (0, {})", y);
    }
    for y in 2..=8 {
        assert!(canvas.get(4, y), "baseline drop missing at (4, {})", y);
    }
    // Second pair (4,2)-(8,3).
    for x in 4..=8 {
        assert!(canvas.get(x, 3), "top segment missing at ({}, 3)", x);
    }
    for y in 3..=8 {
        assert!(canvas.get(8, y), "baseline drop missing at (8, {})", y);
    }
}

#[test]
fn steps_draw_staircase() {
    let mut canvas = Canvas::new(16, 12);
    let points: Vec<(u32, u32)> = vec![(0, 6), (5, 2)];
    draw_shape(&mut canvas, ShapeKind::Steps, &points, 8, None);
    // Horizontal at the second point's row, vertical at the first's column.
    for x in 0..=5 {
        assert!(canvas.get(x, 2));
    }
    for y in 2..=6 {
        assert!(canvas.get(0, y));
    }
    // No baseline drop for steps.
    assert!(!canvas.get(5, 8));
}

#[test]
fn points_draw_no_joins() {
    let mut canvas = Canvas::new(16, 12);
    let points: Vec<(u32, u32)> = vec![(0, 0), (4, 4)];
    draw_shape(&mut canvas, ShapeKind::Points, &points, 8, None);
    assert!(canvas.get(0, 0));
    assert!(canvas.get(4, 4));
    assert!(!canvas.get(2, 2));
}

#[test]
fn lines_join_pairs() {
    let mut canvas = Canvas::new(16, 12);
    let points: Vec<(u32, u32)> = vec![(0, 0), (4, 4), (8, 0)];
    draw_shape(&mut canvas, ShapeKind::Lines, &points, 8, None);
    for i in 0..=4 {
        assert!(canvas.get(i, i));
        assert!(canvas.get(4 + i, 4 - i));
    }
}

#[test]
fn colored_shape_colors_cells() {
    let mut canvas = Canvas::new(8, 8);
    let points: Vec<(u32, u32)> = vec![(0, 0), (3, 3)];
    draw_shape(&mut canvas, ShapeKind::Lines, &points, 8, Some(PixelColor::Cyan));
    assert!(canvas.frame().contains("\u{1b}[36m"));
}

#[test]
fn vline_dashes_every_third_row() {
    let mut canvas = Canvas::new(32, 32);
    vline(&mut canvas, 4, 32, 32);
    for j in 0..=32 {
        assert_eq!(canvas.get(4, j), j % 3 == 0, "at row {}", j);
    }
    // A column beyond the width draws nothing.
    let mut empty = Canvas::new(32, 32);
    vline(&mut empty, 33, 32, 32);
    assert_eq!(empty.frame(), Canvas::new(32, 32).frame());
}

#[test]
fn hline_dashes_every_third_column() {
    let mut canvas = Canvas::new(32, 32);
    hline(&mut canvas, 0, 32, 32);
    for i in 0..=32 {
        assert_eq!(canvas.get(i, 32), i % 3 == 0, "at column {}", i);
    }
}

#[test]
fn shape_flags_select_kind() {
    assert_eq!(shape_from_flags(false, false, false), Some(ShapeKind::Lines));
    assert_eq!(shape_from_flags(true, false, false), Some(ShapeKind::Steps));
    assert_eq!(shape_from_flags(false, true, false), Some(ShapeKind::Bars));
    assert_eq!(shape_from_flags(false, false, true), Some(ShapeKind::Points));
    assert_eq!(shape_from_flags(true, true, false), None);
    assert_eq!(shape_from_flags(true, true, true), None);
}

#[test]
fn palette_order() {
    assert_eq!(palette_color(0), PixelColor::BrightWhite);
    assert_eq!(palette_color(1), PixelColor::BrightRed);
    assert_eq!(palette_color(2), PixelColor::BrightBlue);
    assert_eq!(palette_color(3), PixelColor::BrightYellow);
    assert_eq!(palette_color(4), PixelColor::Cyan);
}

#[test]
fn continuous_sin_over_x_has_sixteen_rows() {
    // A 120 x 60 chart of f(x) = sin(x) / x over [-10, 10]: project one
    // point per horizontal dot, keeping only normal values, then join.
    let width: u32 = 120;
    let height: u32 = 60;
    let (xmin, xmax) = (-10.0f32, 10.0f32);
    let mut points: Vec<(u32, u32)> = Vec::new();
    let mut ymin = f32::INFINITY;
    let mut ymax = f32::NEG_INFINITY;
    let f = |x: f32| x.sin() / x;
    for i in 0..width {
        let x = xmin + (i as f32) * (xmax - xmin) / (width as f32);
        let y = f(x);
        if y.is_normal() {
            ymin = ymin.min(y);
            ymax = ymax.max(y);
        }
    }
    for i in 0..width {
        let x = xmin + (i as f32) * (xmax - xmin) / (width as f32);
        let y = f(x);
        if y.is_normal() {
            let j = ((y - ymin) * (height as f32) / (ymax - ymin)).round();
            points.push((i, height - j as u32));
        }
    }
    let mut canvas = Canvas::new(width, height);
    draw_shape(&mut canvas, ShapeKind::Continuous, &points, height, None);
    let frame = canvas.frame();
    assert_eq!(frame.lines().count(), (height / 4 + 1) as usize);
}
