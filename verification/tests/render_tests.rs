use nu_plugin_plot::PixelColor;
use nu_plugin_plot::canvas::Canvas;

#[test]
fn colored_cell_is_escape_wrapped() {
    let mut canvas = Canvas::new(2, 4);
    canvas.set_colored(0, 0, PixelColor::BrightRed);
    let expected = format!("\u{1b}[91m\u{2801}\u{1b}[39m \n  ");
    assert_eq!(canvas.frame(), expected);
}

#[test]
fn each_palette_color_has_its_code() {
    let cases = [
        (PixelColor::White, "37"),
        (PixelColor::BrightWhite, "97"),
        (PixelColor::BrightRed, "91"),
        (PixelColor::BrightBlue, "94"),
        (PixelColor::BrightYellow, "93"),
        (PixelColor::Cyan, "36"),
    ];
    for (color, code) in cases {
        let mut canvas = Canvas::new(2, 4);
        canvas.set_colored(1, 0, color);
        let frame = canvas.frame();
        let expected_prefix = format!("\u{1b}[{}m", code);
        assert!(
            frame.starts_with(&expected_prefix),
            "frame {:?} does not start with {:?}",
            frame,
            expected_prefix
        );
        assert!(frame.contains("\u{1b}[39m"));
    }
}

#[test]
fn plain_set_resets_color() {
    let mut canvas = Canvas::new(2, 4);
    canvas.set_colored(0, 0, PixelColor::Cyan);
    canvas.set(1, 0);
    // The most recent plain write wins for the whole cell: no escapes.
    assert_eq!(canvas.frame(), "\u{2809} \n  ");
}

#[test]
fn full_cell_is_topmost_braille_codepoint() {
    let mut canvas = Canvas::new(2, 4);
    for x in 0..2 {
        for y in 0..4 {
            canvas.set(x, y);
        }
    }
    assert_eq!(canvas.frame().chars().next(), Some('\u{28FF}'));
}

#[test]
fn braille_bit_layout() {
    // One dot per position, each its own documented bit.
    let expected = [
        ((0u32, 0u32), 0x01u32),
        ((1, 0), 0x08),
        ((0, 1), 0x02),
        ((1, 1), 0x10),
        ((0, 2), 0x04),
        ((1, 2), 0x20),
        ((0, 3), 0x40),
        ((1, 3), 0x80),
    ];
    for ((x, y), bit) in expected {
        let mut canvas = Canvas::new(2, 4);
        canvas.set(x, y);
        let glyph = canvas.frame().chars().next().unwrap();
        assert_eq!(glyph as u32, 0x2800 + bit);
    }
}

#[test]
fn line_colored_wraps_cells() {
    let mut canvas = Canvas::new(8, 8);
    canvas.line_colored(0, 0, 7, 7, PixelColor::BrightYellow);
    let frame = canvas.frame();
    assert!(frame.contains("\u{1b}[93m"));
    assert!(canvas.get(0, 0) && canvas.get(7, 7));
}

#[test]
fn unset_keeps_cell_color() {
    let mut canvas = Canvas::new(2, 4);
    canvas.set_colored(0, 0, PixelColor::Cyan);
    canvas.set_colored(1, 0, PixelColor::Cyan);
    canvas.unset(0, 0);
    // The remaining dot still renders in the cell's color.
    assert!(canvas.frame().starts_with("\u{1b}[36m\u{2808}\u{1b}[39m"));
}
