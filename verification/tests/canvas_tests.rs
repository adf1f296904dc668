use nu_plugin_plot::canvas::Canvas;

#[test]
fn golden_small_canvas() {
    let mut canvas = Canvas::new(10, 10);
    canvas.set(5, 4);
    canvas.line(2, 2, 8, 8);
    assert_eq!(canvas.frame(), [" ⢄    ", "  ⠙⢄  ", "    ⠁ "].join("\n"));
}

#[test]
fn set_then_get_then_unset() {
    let mut canvas = Canvas::new(32, 32);
    for &(x, y) in &[(0u32, 0u32), (1, 3), (7, 2), (31, 31), (2, 30)] {
        assert!(!canvas.get(x, y));
        canvas.set(x, y);
        assert!(canvas.get(x, y));
        canvas.unset(x, y);
        assert!(!canvas.get(x, y));
    }
}

#[test]
fn toggle_twice_restores() {
    let mut canvas = Canvas::new(16, 16);
    canvas.set(4, 5);
    let before = canvas.get(4, 5);
    canvas.toggle(4, 5);
    assert!(!canvas.get(4, 5));
    canvas.toggle(4, 5);
    assert_eq!(canvas.get(4, 5), before);

    let before2 = canvas.get(9, 9);
    canvas.toggle(9, 9);
    canvas.toggle(9, 9);
    assert_eq!(canvas.get(9, 9), before2);
}

#[test]
fn degenerate_line_sets_one_dot() {
    let mut canvas = Canvas::new(20, 20);
    canvas.line(7, 9, 7, 9);
    let mut count = 0;
    for x in 0..20 {
        for y in 0..20 {
            if canvas.get(x, y) {
                count += 1;
                assert_eq!((x, y), (7, 9));
            }
        }
    }
    assert_eq!(count, 1);
}

#[test]
fn diagonal_line_dots() {
    let mut canvas = Canvas::new(10, 10);
    canvas.line(2, 2, 8, 8);
    for i in 2..=8 {
        assert!(canvas.get(i, i));
    }
    assert!(!canvas.get(1, 1));
    assert!(!canvas.get(9, 9));
    assert!(!canvas.get(2, 3));
}

#[test]
fn line_direction_reversed() {
    let mut a = Canvas::new(16, 16);
    let mut b = Canvas::new(16, 16);
    a.line(1, 2, 9, 6);
    b.line(9, 6, 1, 2);
    // End points are always set either way.
    assert!(a.get(1, 2) && a.get(9, 6));
    assert!(b.get(1, 2) && b.get(9, 6));
}

#[test]
fn set_char_overrides_and_is_overridden() {
    let mut canvas = Canvas::new(8, 8);
    canvas.set_char(0, 0, 'A');
    assert_eq!(canvas.rows()[0].chars().next(), Some('A'));
    // A later dot in the same cell takes the cell back to Braille.
    canvas.set(0, 0);
    assert_eq!(canvas.rows()[0].chars().next(), Some('\u{2801}'));
}

#[test]
fn unset_keeps_override_char() {
    let mut canvas = Canvas::new(8, 8);
    canvas.set_char(0, 0, 'Z');
    canvas.unset(1, 1);
    assert_eq!(canvas.rows()[0].chars().next(), Some('Z'));
}

#[test]
fn clear_empties_but_keeps_size() {
    let mut canvas = Canvas::new(10, 10);
    canvas.set(5, 4);
    canvas.clear();
    assert!(!canvas.get(5, 4));
    assert_eq!(canvas.frame(), ["      ", "      ", "      "].join("\n"));
}

#[test]
fn canvas_grows_beyond_nominal() {
    let mut canvas = Canvas::new(8, 8);
    assert_eq!(canvas.rows().len(), 3);
    canvas.set(0, 19);
    assert_eq!(canvas.rows().len(), 5);
    canvas.set(19, 0);
    assert_eq!(canvas.rows()[0].chars().count(), 10);
}

#[test]
fn text_places_and_cuts_off() {
    let mut canvas = Canvas::new(40, 8);
    canvas.text(0, 0, 40, "hi");
    let row0 = canvas.rows().remove(0);
    let chars: Vec<char> = row0.chars().collect();
    assert_eq!(chars[0], 'h');
    assert_eq!(chars[1], 'i');

    let mut narrow = Canvas::new(40, 8);
    // Characters stop once their offset exceeds max_width; an offset of
    // exactly max_width is still placed.
    narrow.text(0, 0, 2, "abcdef");
    let row: Vec<char> = narrow.rows().remove(0).chars().collect();
    assert_eq!(row[0], 'a');
    assert_eq!(row[1], 'b');
    assert_eq!(row[2], ' ');
}

#[test]
fn rows_shape() {
    let canvas = Canvas::new(10, 10);
    let rows = canvas.rows();
    assert_eq!(rows.len(), 3);
    for row in rows {
        assert_eq!(row.chars().count(), 6);
    }
}

#[test]
fn frame_joined_by_newlines() {
    let canvas = Canvas::new(10, 10);
    assert_eq!(canvas.frame().lines().count(), 3);
}
