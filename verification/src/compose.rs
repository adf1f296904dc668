//! Assembling the final text block around a rendered frame: axis labels
//! after the first row and under the last, indentation of a whole block,
//! and the per-series legend lines.

use vstd::prelude::*;

use crate::PixelColor;
use crate::render::painted;

verus! {

/// Index of the first newline in `s` at or after `i`, or `s.len()` if
/// there is none.
pub open spec fn first_newline_from(s: Seq<char>, i: int) -> int
    decreases s.len() - i,
{
    if i < 0 || i >= s.len() {
        s.len() as int
    } else if s[i] == '\n' {
        i
    } else {
        first_newline_from(s, i + 1)
    }
}

/// Index of the first newline in `s`, or `s.len()` if there is none.
pub open spec fn first_newline(s: Seq<char>) -> int {
    first_newline_from(s, 0)
}

/// `s` padded on the right with spaces to width `w` (left as it is when
/// already that wide).
pub open spec fn pad_right(s: Seq<char>, w: int) -> Seq<char> {
    if s.len() >= w {
        s
    } else {
        s + Seq::new((w - s.len()) as nat, |i: int| ' ')
    }
}

/// A frame with its axis labels: the `ymax` label goes right after the
/// first row, and a final line carries the `ymin` label, the `xmin`
/// label padded to `width / 2 - 3` columns, and the `xmax` label. A
/// frame without a newline (a single row) is left untouched.
pub open spec fn decorated_frame(
    frame: Seq<char>,
    ymax_label: Seq<char>,
    ymin_label: Seq<char>,
    xmin_label: Seq<char>,
    xmax_label: Seq<char>,
    width: int,
) -> Seq<char> {
    let idx = first_newline(frame);
    if idx == frame.len() {
        frame
    } else {
        frame.subrange(0, idx) + ymax_label + frame.subrange(idx, frame.len() as int)
            + ymin_label + seq!['\n'] + pad_right(xmin_label, width / 2 - 3) + xmax_label
            + seq!['\n']
    }
}

/// Appends `src` to `out`.
fn extend_chars(out: &mut Vec<char>, src: &Vec<char>)
    ensures
        final(out)@ == old(out)@ + src@,
{
    let mut k: usize = 0;
    while k < src.len()
        invariant
            k <= src@.len(),
            out@ == old(out)@ + src@.subrange(0, k as int),
        decreases src@.len() - k,
    {
        out.push(src[k]);
        proof {
            assert(src@.subrange(0, k + 1) =~= src@.subrange(0, k as int).push(src@[k as int]));
            assert(out@ =~= old(out)@ + src@.subrange(0, k + 1));
        }
        k = k + 1;
    }
    proof {
        assert(src@.subrange(0, src@.len() as int) =~= src@);
    }
}

/// Appends the characters `from..to` of `src` to `out`.
fn extend_range(out: &mut Vec<char>, src: &Vec<char>, from: usize, to: usize)
    requires
        from <= to <= src@.len(),
    ensures
        final(out)@ == old(out)@ + src@.subrange(from as int, to as int),
{
    let mut k: usize = from;
    while k < to
        invariant
            from <= k <= to <= src@.len(),
            out@ == old(out)@ + src@.subrange(from as int, k as int),
        decreases to - k,
    {
        out.push(src[k]);
        proof {
            assert(src@.subrange(from as int, k + 1) =~= src@.subrange(from as int, k as int)
                .push(src@[k as int]));
            assert(out@ =~= old(out)@ + src@.subrange(from as int, k + 1));
        }
        k = k + 1;
    }
}

/// Finds the first newline of `frame`, as `first_newline` describes.
fn find_newline(frame: &Vec<char>) -> (r: usize)
    ensures
        r == first_newline(frame@),
        r <= frame@.len(),
{
    let mut i: usize = 0;
    while i < frame.len()
        invariant
            i <= frame@.len(),
            first_newline(frame@) == first_newline_from(frame@, i as int),
            forall|k: int| 0 <= k < i ==> frame@[k] != '\n',
        decreases frame@.len() - i,
    {
        if frame[i] == '\n' {
            return i;
        }
        i = i + 1;
    }
    i
}

/// Surrounds a rendered frame with its four formatted axis labels, as
/// `decorated_frame` describes; the labels come already formatted.
pub fn decorate_frame(
    frame: &Vec<char>,
    ymax_label: &Vec<char>,
    ymin_label: &Vec<char>,
    xmin_label: &Vec<char>,
    xmax_label: &Vec<char>,
    width: u32,
) -> (r: Vec<char>)
    requires
        width >= 6,
    ensures
        r@ == decorated_frame(
            frame@,
            ymax_label@,
            ymin_label@,
            xmin_label@,
            xmax_label@,
            width as int,
        ),
{
    let idx = find_newline(frame);
    let mut out: Vec<char> = Vec::new();
    if idx == frame.len() {
        extend_chars(&mut out, frame);
        proof {
            assert(Seq::<char>::empty() + frame@ =~= frame@);
        }
        return out;
    }
    extend_range(&mut out, frame, 0, idx);
    extend_chars(&mut out, ymax_label);
    extend_range(&mut out, frame, idx, frame.len());
    extend_chars(&mut out, ymin_label);
    out.push('\n');
    let pad_w: usize = (width as usize) / 2 - 3;
    let mut pad_k: usize = xmin_label.len();
    extend_chars(&mut out, xmin_label);
    let ghost before_pad = out@;
    while pad_k < pad_w
        invariant
            xmin_label@.len() <= pad_k,
            pad_k <= vstd::math::max(pad_w as int, xmin_label@.len() as int),
            out@ == before_pad + Seq::new((pad_k - xmin_label@.len()) as nat, |i: int| ' '),
        decreases pad_w - pad_k,
    {
        out.push(' ');
        proof {
            assert(out@ =~= before_pad + Seq::new(
                (pad_k + 1 - xmin_label@.len()) as nat,
                |i: int| ' ',
            ));
        }
        pad_k = pad_k + 1;
    }
    proof {
        assert(out@ =~= decorated_frame(
            frame@,
            ymax_label@,
            ymin_label@,
            xmin_label@,
            xmax_label@,
            width as int,
        ).subrange(
            0,
            out@.len() as int,
        )) by {
            let full = decorated_frame(
                frame@,
                ymax_label@,
                ymin_label@,
                xmin_label@,
                xmax_label@,
                width as int,
            );
            assert(before_pad + Seq::new(0nat, |i: int| ' ') =~= before_pad);
            assert(pad_right(xmin_label@, width as int / 2 - 3) =~= out@.subrange(
                before_pad.len() as int - xmin_label@.len() as int,
                out@.len() as int,
            ));
        }
    }
    extend_chars(&mut out, xmax_label);
    out.push('\n');
    proof {
        assert(out@ =~= decorated_frame(
            frame@,
            ymax_label@,
            ymin_label@,
            xmin_label@,
            xmax_label@,
            width as int,
        ));
    }
    out
}

/// Four spaces: the indentation that keeps a chart off the left edge.
pub open spec fn tab() -> Seq<char> {
    seq![' ', ' ', ' ', ' ']
}

/// The first `n` characters of `s`, indented: a tab up front, and one
/// after every newline.
pub open spec fn indent_prefix(s: Seq<char>, n: int) -> Seq<char>
    decreases n,
{
    if n <= 0 {
        tab()
    } else {
        let prev = indent_prefix(s, n - 1);
        if s[n - 1] == '\n' {
            prev + seq!['\n'] + tab()
        } else {
            prev.push(s[n - 1])
        }
    }
}

/// A whole block indented by a tab, every line of it.
pub open spec fn indented_block(s: Seq<char>) -> Seq<char> {
    indent_prefix(s, s.len() as int)
}

/// Indents a text block: a tab before the first line and after every
/// newline.
pub fn indent_block(s: &Vec<char>) -> (r: Vec<char>)
    ensures
        r@ == indented_block(s@),
{
    let mut out: Vec<char> = Vec::new();
    out.push(' ');
    out.push(' ');
    out.push(' ');
    out.push(' ');
    proof {
        assert(out@ =~= tab());
    }
    let mut i: usize = 0;
    while i < s.len()
        invariant
            i <= s@.len(),
            out@ == indent_prefix(s@, i as int),
        decreases s@.len() - i,
    {
        let c = s[i];
        out.push(c);
        if c == '\n' {
            out.push(' ');
            out.push(' ');
            out.push(' ');
            out.push(' ');
            proof {
                assert(out@ =~= indent_prefix(s@, i as int) + seq!['\n'] + tab());
            }
        }
        i = i + 1;
    }
    out
}

/// The decimal digit characters of a nonnegative number, most
/// significant first.
pub open spec fn dec_digits(n: int) -> Seq<char>
    decreases n,
{
    if n < 10 {
        seq![digit_of(n)]
    } else {
        dec_digits(n / 10) + seq![digit_of(n % 10)]
    }
}

/// One decimal digit as a character.
pub open spec fn digit_of(d: int) -> char {
    if d == 0 {
        '0'
    } else if d == 1 {
        '1'
    } else if d == 2 {
        '2'
    } else if d == 3 {
        '3'
    } else if d == 4 {
        '4'
    } else if d == 5 {
        '5'
    } else if d == 6 {
        '6'
    } else if d == 7 {
        '7'
    } else if d == 8 {
        '8'
    } else {
        '9'
    }
}

/// Appends the decimal digits of `n` to `out`.
fn push_decimal(n: u32, out: &mut Vec<char>)
    ensures
        final(out)@ == old(out)@ + dec_digits(n as int),
    decreases n,
{
    if n < 10 {
        out.push(digit_char(n));
        proof {
            assert(out@ =~= old(out)@ + seq![digit_of(n as int)]);
        }
    } else {
        push_decimal(n / 10, out);
        out.push(digit_char(n % 10));
        proof {
            assert(out@ =~= old(out)@ + dec_digits(n as int / 10) + seq![digit_of(n as int % 10)]);
        }
    }
}

/// One decimal digit, executable.
fn digit_char(d: u32) -> (c: char)
    requires
        d < 10,
    ensures
        c == digit_of(d as int),
{
    if d == 0 {
        '0'
    } else if d == 1 {
        '1'
    } else if d == 2 {
        '2'
    } else if d == 3 {
        '3'
    } else if d == 4 {
        '4'
    } else if d == 5 {
        '5'
    } else if d == 6 {
        '6'
    } else if d == 7 {
        '7'
    } else if d == 8 {
        '8'
    } else {
        '9'
    }
}

/// One legend line: `Line <n>: ` then a color-wrapped `---`, and a
/// trailing space when several series share the legend.
pub open spec fn legend_text(n: int, color: PixelColor, trailing: bool) -> Seq<char> {
    seq!['L', 'i', 'n', 'e', ' '] + dec_digits(n) + seq![':', ' '] + painted(
        seq!['-', '-', '-'],
        color,
    ) + if trailing {
        seq![' ']
    } else {
        Seq::<char>::empty()
    }
}

/// Builds the legend line for series number `n` (numbered from one).
pub fn legend_entry(n: u32, color: PixelColor, trailing: bool) -> (r: Vec<char>)
    ensures
        r@ == legend_text(n as int, color, trailing),
{
    let mut out: Vec<char> = Vec::new();
    out.push('L');
    out.push('i');
    out.push('n');
    out.push('e');
    out.push(' ');
    proof {
        assert(out@ =~= seq!['L', 'i', 'n', 'e', ' ']);
    }
    push_decimal(n, &mut out);
    out.push(':');
    out.push(' ');
    let dash = crate::render::paint_text("---", color);
    extend_chars(&mut out, &dash);
    if trailing {
        out.push(' ');
    }
    proof {
        reveal_strlit("---");
        assert("---"@ =~= seq!['-', '-', '-']);
        assert(out@ =~= legend_text(n as int, color, trailing));
    }
    out
}

} // verus!
