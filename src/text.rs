//! Text fitting and the pixel buffer that text is rendered into. Glyph
//! measurement and outlines come from the font; what is decided from those
//! measurements, and how coverage is blended, is here.

use vstd::prelude::*;
use crate::title::push_char;

verus! {

/// How a title is fitted into a width.
#[derive(Clone, Copy, Debug, PartialEq, Eq, Structural)]
pub enum Fit {
    /// The whole title, unchanged.
    Whole,
    /// The first `k` characters, followed by the ellipsis.
    Prefix(usize),
    /// The ellipsis alone.
    Ellipsis,
    /// Nothing at all.
    Nothing,
}

/// The ellipsis put after a shortened title.
pub open spec fn ellipsis() -> Seq<char> {
    seq!['.', '.', '.']
}

/// The largest `k` in `1..=top` whose width `ws[k]` fits `max`, scanning down from `top`.
pub open spec fn longest_fitting(ws: Seq<u32>, max: u32, top: int) -> Option<int>
    decreases top,
{
    if top < 1 {
        None
    } else if ws[top] <= max {
        Some(top)
    } else {
        longest_fitting(ws, max, top - 1)
    }
}

/// The fit of a title whose measured width is `full`, where `ws[k]` is the
/// measured width of its first `k` characters followed by the ellipsis
/// (so `ws[0]` is the width of the ellipsis alone).
pub open spec fn fit_of(full: u32, ws: Seq<u32>, max: u32) -> Fit {
    if full <= max {
        Fit::Whole
    } else if max < ws[0] {
        Fit::Nothing
    } else {
        match longest_fitting(ws, max, ws.len() - 1) {
            Some(k) => Fit::Prefix(k as usize),
            None => Fit::Ellipsis,
        }
    }
}

/// The text that a fit stands for.
pub open spec fn fitted(title: Seq<char>, fit: Fit) -> Seq<char> {
    match fit {
        Fit::Whole => title,
        Fit::Prefix(k) => title.take(k as int) + ellipsis(),
        Fit::Ellipsis => ellipsis(),
        Fit::Nothing => Seq::empty(),
    }
}

/// The measured width of the text that a fit stands for.
pub open spec fn fitted_width(full: u32, ws: Seq<u32>, fit: Fit) -> int {
    match fit {
        Fit::Whole => full as int,
        Fit::Prefix(k) => ws[k as int] as int,
        Fit::Ellipsis => ws[0] as int,
        Fit::Nothing => 0,
    }
}

proof fn lemma_longest_fitting(ws: Seq<u32>, max: u32, top: int)
    requires
        top < ws.len(),
    ensures
        longest_fitting(ws, max, top) matches Some(k) ==> 1 <= k <= top && ws[k] <= max,
        longest_fitting(ws, max, top) is None ==> forall|k: int| 1 <= k <= top ==> ws[k] > max,
    decreases top,
{
    if top >= 1 {
        lemma_longest_fitting(ws, max, top - 1);
    }
}

/// A fitted title is never wider than the space it was fitted to, and it is
/// the whole title exactly when the whole title fits.
pub proof fn lemma_fit_within(full: u32, ws: Seq<u32>, max: u32)
    requires
        1 <= ws.len() <= usize::MAX,
    ensures
        fitted_width(full, ws, fit_of(full, ws, max)) <= max,
        (fit_of(full, ws, max) == Fit::Whole) <==> full <= max,
        fit_of(full, ws, max) matches Fit::Prefix(k) ==> 1 <= k < ws.len(),
{
    lemma_longest_fitting(ws, max, ws.len() - 1);
}

/// Chooses how to fit a title into `max` pixels: whole if it fits; else the
/// longest prefix that fits with the ellipsis after it, searched from the end;
/// else the ellipsis alone if it fits; else nothing.
pub fn choose_fit(full_width: u32, ws: &Vec<u32>, max: u32) -> (r: Fit)
    requires
        ws@.len() >= 1,
    ensures
        r == fit_of(full_width, ws@, max),
{
    if full_width <= max {
        return Fit::Whole;
    }
    if max < ws[0] {
        return Fit::Nothing;
    }
    let n = ws.len();
    let mut k: usize = n - 1;
    while k >= 1
        invariant
            n == ws@.len(),
            k < ws@.len(),
            full_width > max,
            max >= ws@[0],
            longest_fitting(ws@, max, ws@.len() - 1) == longest_fitting(ws@, max, k as int),
        decreases k,
    {
        if ws[k] <= max {
            assert(longest_fitting(ws@, max, k as int) == Some(k as int));
            return Fit::Prefix(k);
        }
        k = k - 1;
    }
    Fit::Ellipsis
}

/// The text of a fit, built from the title.
pub fn apply_fit(title: &str, fit: Fit) -> (r: String)
    requires
        fit matches Fit::Prefix(k) ==> k <= title@.len(),
    ensures
        r@ == fitted(title@, fit),
{
    match fit {
        Fit::Whole => title.to_owned(),
        Fit::Nothing => String::new(),
        Fit::Ellipsis => {
            let mut out = String::new();
            push_ellipsis(&mut out);
            assert(out@ =~= ellipsis());
            out
        },
        Fit::Prefix(k) => {
            let mut out = String::new();
            let mut i: usize = 0;
            while i < k
                invariant
                    k <= title@.len(),
                    i <= k,
                    out@ == title@.take(i as int),
                decreases k - i,
            {
                let c = title.get_char(i);
                push_char(&mut out, c);
                assert(out@ =~= title@.take(i + 1));
                i = i + 1;
            }
            push_ellipsis(&mut out);
            assert(out@ =~= title@.take(k as int) + ellipsis());
            out
        },
    }
}

fn push_ellipsis(s: &mut String)
    ensures
        final(s)@ == old(s)@ + ellipsis(),
{
    push_char(s, '.');
    push_char(s, '.');
    push_char(s, '.');
    assert(final(s)@ =~= old(s)@ + ellipsis());
}

/// Shortens a title to fit `max` pixels (see `choose_fit`), given its measured
/// width and the measured widths of each of its prefixes followed by the ellipsis.
pub fn shorten_to_fit(title: &str, full_width: u32, ws: &Vec<u32>, max: u32) -> (r: String)
    requires
        ws@.len() == title@.len() + 1,
    ensures
        r@ == fitted(title@, fit_of(full_width, ws@, max)),
{
    let n = ws.len();
    let fit = choose_fit(full_width, ws, max);
    proof {
        lemma_fit_within(full_width, ws@, max);
    }
    apply_fit(title, fit)
}

/// Byte `k` of a raster filled with `bg` (`0xRRGGBB`), in the display's order:
/// blue, green, red, padding.
pub open spec fn background_byte(bg: u32, k: int) -> u8 {
    let c = k % 4;
    if c == 0 {
        (bg & 0xff) as u8
    } else if c == 1 {
        ((bg >> 8u32) & 0xff) as u8
    } else if c == 2 {
        ((bg >> 16u32) & 0xff) as u8
    } else {
        0xffu8
    }
}

/// A `width`×`height` raster filled with the background colour.
pub fn new_raster(width: usize, height: usize, bg: u32) -> (r: Vec<u8>)
    requires
        4 * width * height <= usize::MAX,
    ensures
        r@.len() == 4 * width * height,
        forall|k: int| 0 <= k < r@.len() ==> #[trigger] r@[k] == background_byte(bg, k),
{
    let b = (bg & 0xff) as u8;
    let g = ((bg >> 8u32) & 0xff) as u8;
    let r = ((bg >> 16u32) & 0xff) as u8;
    assert(width * height <= usize::MAX) by (nonlinear_arith)
        requires
            4 * width * height <= usize::MAX,
    ;
    let n = width * height;
    assert(4 * n == 4 * width * height) by (nonlinear_arith)
        requires
            n == width * height,
    ;
    let mut out: Vec<u8> = Vec::new();
    let mut i: usize = 0;
    while i < n
        invariant
            n == width * height,
            4 * n <= usize::MAX,
            i <= n,
            out@.len() == 4 * i,
            b == background_byte(bg, 0),
            g == background_byte(bg, 1),
            r == background_byte(bg, 2),
            forall|k: int| 0 <= k < out@.len() ==> #[trigger] out@[k] == background_byte(bg, k),
        decreases n - i,
    {
        out.push(b);
        out.push(g);
        out.push(r);
        out.push(0xff);
        assert forall|k: int| 0 <= k < out@.len() implies #[trigger] out@[k] == background_byte(
            bg,
            k,
        ) by {
            if k >= 4 * i {
                assert(k % 4 == k - 4 * i);
            }
        }
        i = i + 1;
    }
    out
}

/// One channel of coverage blending: `fg` over `cur` with coverage `alpha` of 256.
pub open spec fn coverage_channel(fg: u8, cur: u8, alpha: u16) -> u8 {
    (((fg as int) * (alpha as int) + (cur as int) * (256 - alpha as int)) / 256) as u8
}

fn coverage_u8(fg: u8, cur: u8, alpha: u16) -> (r: u8)
    requires
        alpha <= 256,
    ensures
        r == coverage_channel(fg, cur, alpha),
{
    assert((fg as u32) * (alpha as u32) + (cur as u32) * (256 - alpha as u32) <= 255 * 256)
        by (nonlinear_arith)
        requires
            fg <= 255,
            cur <= 255,
            alpha <= 256,
    ;
    (((fg as u32) * (alpha as u32) + (cur as u32) * (256 - alpha as u32)) / 256) as u8
}

/// The raster after blending `fg` at pixel `(px, py)` with coverage `alpha`;
/// a pixel outside the raster leaves it as it was.
pub open spec fn covered(
    buf: Seq<u8>,
    width: int,
    height: int,
    px: int,
    py: int,
    alpha: u16,
    fg: u32,
) -> Seq<u8> {
    if 0 <= px < width && 0 <= py < height {
        let i = 4 * (py * width + px);
        buf.update(i, coverage_channel((fg & 0xff) as u8, buf[i], alpha)).update(
            i + 1,
            coverage_channel(((fg >> 8u32) & 0xff) as u8, buf[i + 1], alpha),
        ).update(i + 2, coverage_channel(((fg >> 16u32) & 0xff) as u8, buf[i + 2], alpha))
    } else {
        buf
    }
}

/// Blends the text colour `fg` into one pixel of a raster, weighted by the
/// glyph's coverage there (`alpha` of 256), against what the pixel holds.
pub fn blend_coverage(
    buf: &mut Vec<u8>,
    width: usize,
    height: usize,
    px: i64,
    py: i64,
    alpha: u16,
    fg: u32,
)
    requires
        old(buf)@.len() == 4 * width * height,
        alpha <= 256,
    ensures
        final(buf)@ == covered(old(buf)@, width as int, height as int, px as int, py as int, alpha, fg),
{
    if px >= 0 && py >= 0 && (px as u64) < (width as u64) && (py as u64) < (height as u64) {
        let x = px as usize;
        let y = py as usize;
        let bl = buf.len();
        assert(4 * (y * width + x) + 3 < 4 * width * height && 0 <= y * width <= y * width + x)
            by (nonlinear_arith)
            requires
                x < width,
                y < height,
        ;
        assert(bl == 4 * width * height);
        let i = 4 * (y * width + x);
        let b = coverage_u8((fg & 0xff) as u8, buf[i], alpha);
        buf.set(i, b);
        let g = coverage_u8(((fg >> 8u32) & 0xff) as u8, buf[i + 1], alpha);
        buf.set(i + 1, g);
        let r = coverage_u8(((fg >> 16u32) & 0xff) as u8, buf[i + 2], alpha);
        buf.set(i + 2, r);
    }
}

} // verus!
