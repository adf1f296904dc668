use nu_plugin_plot::PixelColor;
use nu_plugin_plot::compose::{decorate_frame, indent_block, legend_entry};

fn chars(s: &str) -> Vec<char> {
    s.chars().collect()
}

fn text(v: Vec<char>) -> String {
    v.into_iter().collect()
}

#[test]
fn decorate_inserts_labels() {
    let frame = chars("AAAA\nBBBB\nCCCC");
    let out = decorate_frame(
        &frame,
        &chars(" 3.0"),
        &chars(" -1.0"),
        &chars("0.0"),
        &chars("9.0"),
        32,
    );
    // ymax goes right after the first row; the last line is
    // ymin, then xmin padded to 32/2 - 3 = 13 columns, then xmax.
    assert_eq!(
        text(out),
        "AAAA 3.0\nBBBB\nCCCC -1.0\n0.0          9.0\n"
    );
}

#[test]
fn decorate_leaves_single_row_alone() {
    let frame = chars("just one row");
    let out = decorate_frame(
        &frame,
        &chars(" 3.0"),
        &chars(" -1.0"),
        &chars("0.0"),
        &chars("9.0"),
        32,
    );
    assert_eq!(text(out), "just one row");
}

#[test]
fn decorate_does_not_truncate_wide_label() {
    let frame = chars("r\nr");
    let out = decorate_frame(
        &frame,
        &chars("Y"),
        &chars("y"),
        &chars("0123456789"),
        &chars("X"),
        12,
    );
    // 12 / 2 - 3 = 3 columns: the label is already wider, kept whole.
    assert_eq!(text(out), "rY\nry\n0123456789X\n");
}

#[test]
fn indent_adds_tab_after_every_newline() {
    let out = indent_block(&chars("a\nb\nc"));
    assert_eq!(text(out), "    a\n    b\n    c");
}

#[test]
fn indent_of_empty_is_one_tab() {
    let out = indent_block(&chars(""));
    assert_eq!(text(out), "    ");
}

#[test]
fn legend_single_series() {
    let out = legend_entry(1, PixelColor::White, false);
    assert_eq!(text(out), "Line 1: \u{1b}[37m---\u{1b}[39m");
}

#[test]
fn legend_colored_with_trailing_space() {
    let out = legend_entry(3, PixelColor::BrightBlue, true);
    assert_eq!(text(out), "Line 3: \u{1b}[94m---\u{1b}[39m ");
}

#[test]
fn legend_two_digit_number() {
    let out = legend_entry(12, PixelColor::Cyan, true);
    assert_eq!(text(out), "Line 12: \u{1b}[36m---\u{1b}[39m ");
}
