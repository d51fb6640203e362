//! Pictures: what is blacked out of a screenshot, and how it is written.

use vstd::prelude::*;
use crate::text::behind;

verus! {

/// A part of a screenshot in pixels, seen from its upper left corner: from one column and row up to,
/// but not with, others. It may reach beyond the screenshot.
#[derive(Debug, Clone, Copy, PartialEq, Eq, Structural)]
pub struct PixelRect {
    pub x0: i64,
    pub y0: i64,
    pub x1: i64,
    pub y1: i64,
}

/// Whether a part holds a pixel.
pub open spec fn holds_pixel(r: PixelRect, x: int, y: int) -> bool {
    r.x0 <= x < r.x1 && r.y0 <= y < r.y1
}

/// Whether one of some parts holds a pixel.
pub open spec fn is_covered(rects: Seq<PixelRect>, x: int, y: int) -> bool {
    exists|k: int| 0 <= k < rects.len() && holds_pixel(#[trigger] rects[k], x, y)
}

/// Where a pixel is among the bytes of a screenshot so many columns wide and rows high: the bytes
/// begin with the lowest row.
pub open spec fn pixel_at(w: int, h: int, x: int, y: int) -> int {
    ((h - 1 - y) * w + x) * 4
}

/// A byte of a black pixel that is not transparent.
pub open spec fn black(k: int) -> u8 {
    if k == 3 {
        255
    } else {
        0
    }
}

/// Whether the pixels that some parts hold are black, and all others are as they were.
pub open spec fn is_masked(before: Seq<u8>, after: Seq<u8>, w: int, h: int, rects: Seq<PixelRect>) -> bool {
    &&& after.len() == before.len()
    &&& forall|x: int, y: int, k: int|
        0 <= x < w && 0 <= y < h && 0 <= k < 4 ==> #[trigger] byte_of(after, w, h, x, y, k) == (if is_covered(rects, x, y) {
            black(k)
        } else {
            byte_of(before, w, h, x, y, k)
        })
}

/// A byte of a pixel.
pub open spec fn byte_of(bytes: Seq<u8>, w: int, h: int, x: int, y: int, k: int) -> u8 {
    bytes[pixel_at(w, h, x, y) + k]
}

/// Where a pixel is lies within the bytes of the screenshot.
proof fn lemma_pixel_is_inside(w: int, h: int, x: int, y: int)
    requires
        0 <= x < w,
        0 <= y < h,
    ensures
        0 <= pixel_at(w, h, x, y),
        pixel_at(w, h, x, y) + 4 <= w * h * 4,
        0 <= (h - 1 - y) * w,
{
    assert(0 <= (h - 1 - y) * w) by (nonlinear_arith)
        requires
            0 <= w,
            0 <= h - 1 - y,
    ;
    assert((h - 1 - y) * w + w <= w * h) by (nonlinear_arith)
        requires
            0 <= w,
            0 <= y,
    ;
}

/// Two pixels are at two places.
proof fn lemma_pixels_are_apart(w: int, h: int, x: int, y: int, a: int, b: int)
    requires
        0 <= x < w,
        0 <= a < w,
        x != a || y != b,
    ensures
        pixel_at(w, h, x, y) + 4 <= pixel_at(w, h, a, b) || pixel_at(w, h, a, b) + 4 <= pixel_at(w, h, x, y),
{
    if y < b {
        assert((h - 1 - b) * w + w <= (h - 1 - y) * w) by (nonlinear_arith)
            requires
                0 <= w,
                y + 1 <= b,
        ;
    } else if b < y {
        assert((h - 1 - y) * w + w <= (h - 1 - b) * w) by (nonlinear_arith)
            requires
                0 <= w,
                b + 1 <= y,
        ;
    }
}

/// Blacks out one pixel.
fn black_out(rgba: &mut Vec<u8>, w: usize, h: usize, x: usize, y: usize)
    requires
        x < w,
        y < h,
        old(rgba)@.len() == w * h * 4,
    ensures
        final(rgba)@.len() == old(rgba)@.len(),
        forall|k: int| 0 <= k < 4 ==> #[trigger] byte_of(final(rgba)@, w as int, h as int, x as int, y as int, k) == black(k),
        forall|a: int, b: int, k: int|
            0 <= a < w && 0 <= b < h && 0 <= k < 4 && (a != x || b != y) ==> #[trigger] byte_of(final(rgba)@, w as int, h as int, a, b, k) == byte_of(
                old(rgba)@,
                w as int,
                h as int,
                a,
                b,
                k,
            ),
{
    proof {
        lemma_pixel_is_inside(w as int, h as int, x as int, y as int);
    }
    let size: usize = rgba.len();
    proof {
        assert(pixel_at(w as int, h as int, x as int, y as int) + 4 <= size);
    }
    let row: usize = h - 1 - y;
    assert(row * w == (h - 1 - y) * w);
    let i: usize = (row * w + x) * 4;
    rgba.set(i, 0);
    rgba.set(i + 1, 0);
    rgba.set(i + 2, 0);
    rgba.set(i + 3, 255);
    proof {
        let now = rgba@;
        let was = old(rgba)@;
        assert forall|a: int, b: int, k: int| 0 <= a < w && 0 <= b < h && 0 <= k < 4 && (a != x || b != y) implies #[trigger] byte_of(
            now,
            w as int,
            h as int,
            a,
            b,
            k,
        ) == byte_of(was, w as int, h as int, a, b, k) by {
            lemma_pixels_are_apart(w as int, h as int, x as int, y as int, a, b);
            lemma_pixel_is_inside(w as int, h as int, a, b);
        }
    }
}

/// A number of columns or rows, at least none and at most so many.
pub open spec fn clipped(n: i64, most: usize) -> usize {
    if n <= 0 {
        0
    } else if n as int >= most as int {
        most
    } else {
        n as usize
    }
}

/// A number brought into the range from zero to another.
fn clip(n: i64, most: usize) -> (r: usize)
    ensures
        r == clipped(n, most),
        r <= most,
{
    if n <= 0 {
        0
    } else if n as u128 >= most as u128 {
        most
    } else {
        n as usize
    }
}

/// Whether the first rows of one part, and the first columns of the row behind them, are black, and
/// all other pixels are as they were.
spec fn is_partly_masked(before: Seq<u8>, after: Seq<u8>, w: int, h: int, r: PixelRect, row: int, col: int) -> bool {
    &&& after.len() == before.len()
    &&& forall|x: int, y: int, k: int|
        0 <= x < w && 0 <= y < h && 0 <= k < 4 ==> #[trigger] byte_of(after, w, h, x, y, k) == (if holds_pixel(r, x, y) && (y < row || (y == row && x < col)) {
            black(k)
        } else {
            byte_of(before, w, h, x, y, k)
        })
}

/// Blacks out one part.
fn mask_rect(rgba: &mut Vec<u8>, w: usize, h: usize, r: &PixelRect)
    requires
        old(rgba)@.len() == w * h * 4,
    ensures
        is_masked(old(rgba)@, final(rgba)@, w as int, h as int, seq![*r]),
{
    let x0: usize = clip(r.x0, w);
    let y0: usize = clip(r.y0, h);
    let x1: usize = clip(r.x1, w);
    let y1: usize = clip(r.y1, h);
    let ghost before = rgba@;
    let mut y: usize = y0;
    while y < y1
        invariant
            y0 == clipped(r.y0, h),
            y1 == clipped(r.y1, h),
            x0 == clipped(r.x0, w),
            x1 == clipped(r.x1, w),
            y0 <= y,
            y0 <= y1 ==> y <= y1,
            y1 <= h,
            x1 <= w,
            rgba@.len() == w * h * 4,
            before.len() == rgba@.len(),
            is_partly_masked(before, rgba@, w as int, h as int, *r, y as int, 0),
        decreases y1 - y,
    {
        let mut x: usize = x0;
        proof {
            assert(is_partly_masked(before, rgba@, w as int, h as int, *r, y as int, x as int));
        }
        while x < x1
            invariant
                y0 == clipped(r.y0, h),
                y1 == clipped(r.y1, h),
                x0 == clipped(r.x0, w),
                x1 == clipped(r.x1, w),
                x0 <= x,
                x0 <= x1 ==> x <= x1,
                y0 <= y < y1 <= h,
                x1 <= w,
                rgba@.len() == w * h * 4,
                before.len() == rgba@.len(),
                is_partly_masked(before, rgba@, w as int, h as int, *r, y as int, x as int),
            decreases x1 - x,
        {
            black_out(rgba, w, h, x, y);
            x = x + 1;
        }
        y = y + 1;
    }
    proof {
        assert forall|a: int, b: int, k: int| 0 <= a < w && 0 <= b < h && 0 <= k < 4 implies #[trigger] byte_of(rgba@, w as int, h as int, a, b, k) == (if is_covered(seq![*r], a, b) {
            black(k)
        } else {
            byte_of(before, w as int, h as int, a, b, k)
        }) by {
            assert(seq![*r][0] == *r);
            if holds_pixel(*r, a, b) {
                assert(is_covered(seq![*r], a, b));
            } else {
                assert(!is_covered(seq![*r], a, b));
            }
        }
    }
}

/// Blacks out some parts of a screenshot: what they hold of it becomes black, whatever they hold
/// beyond it, and nothing else changes.
pub fn mask_rgba_inplace(rgba: &mut Vec<u8>, w: usize, h: usize, rects: &Vec<PixelRect>)
    requires
        old(rgba)@.len() == w * h * 4,
    ensures
        is_masked(old(rgba)@, final(rgba)@, w as int, h as int, rects@),
{
    let ghost before = rgba@;
    let mut i: usize = 0;
    proof {
        assert(rects@.take(0) =~= Seq::empty());
        assert(is_masked(before, rgba@, w as int, h as int, rects@.take(0)));
    }
    while i < rects.len()
        invariant
            i <= rects@.len(),
            rgba@.len() == w * h * 4,
            is_masked(before, rgba@, w as int, h as int, rects@.take(i as int)),
        decreases rects@.len() - i,
    {
        let ghost mid = rgba@;
        mask_rect(rgba, w, h, &rects[i]);
        proof {
            lemma_one_part_more(rects@, i as int);
            assert(is_masked(mid, rgba@, w as int, h as int, seq![rects@[i as int]]));
            assert forall|x: int, y: int, k: int| 0 <= x < w && 0 <= y < h && 0 <= k < 4 implies #[trigger] byte_of(rgba@, w as int, h as int, x, y, k) == (if is_covered(
                rects@.take(i + 1),
                x,
                y,
            ) {
                black(k)
            } else {
                byte_of(before, w as int, h as int, x, y, k)
            }) by {
                assert(byte_of(mid, w as int, h as int, x, y, k) == (if is_covered(rects@.take(i as int), x, y) {
                    black(k)
                } else {
                    byte_of(before, w as int, h as int, x, y, k)
                }));
            }
        }
        i = i + 1;
    }
    proof {
        assert(rects@.take(i as int) =~= rects@);
    }
}

/// What some parts and one more cover is what the parts cover and what the one does.
proof fn lemma_one_part_more(rects: Seq<PixelRect>, i: int)
    requires
        0 <= i < rects.len(),
    ensures
        forall|x: int, y: int| #[trigger] is_covered(rects.take(i + 1), x, y) == (is_covered(rects.take(i), x, y) || is_covered(seq![rects[i]], x, y)),
{
    let more = rects.take(i + 1);
    let some = rects.take(i);
    let one = seq![rects[i]];
    assert forall|x: int, y: int| #[trigger] is_covered(more, x, y) == (is_covered(some, x, y) || is_covered(one, x, y)) by {
        if is_covered(more, x, y) {
            let k = choose|k: int| 0 <= k < more.len() && holds_pixel(#[trigger] more[k], x, y);
            if k < i {
                assert(holds_pixel(some[k], x, y));
            } else {
                assert(holds_pixel(one[0], x, y));
            }
        }
        if is_covered(some, x, y) {
            let k = choose|k: int| 0 <= k < some.len() && holds_pixel(#[trigger] some[k], x, y);
            assert(holds_pixel(more[k], x, y));
        }
        if is_covered(one, x, y) {
            let k = choose|k: int| 0 <= k < one.len() && holds_pixel(#[trigger] one[k], x, y);
            assert(holds_pixel(more[i], x, y));
        }
    }
}

/// What comes of writing a picture as PNG.
pub enum Png<B, T> {
    /// The bytes of the file.
    File(B),
    /// The head of the file could not be written, for this reason.
    NoHead(T),
    /// The pixels could not be written, for this reason.
    NoPixels(T),
}

impl View for Png<Vec<u8>, String> {
    type V = Png<Seq<u8>, Seq<char>>;

    open spec fn view(&self) -> Png<Seq<u8>, Seq<char>> {
        match self {
            Png::File(b) => Png::File(b@),
            Png::NoHead(e) => Png::NoHead(e@),
            Png::NoPixels(e) => Png::NoPixels(e@),
        }
    }
}

/// What the `png` crate writes for some pixels.
pub uninterp spec fn png_said(rgba: Seq<u8>, w: u32, h: u32) -> Png<Seq<u8>, Seq<char>>;

/// `png::Encoder` with four channels of eight bits, its `write_header` and the `write_image_data` of
/// the writer that it gives: what is written into memory depends on the pixels and the two sizes
/// alone. The crate multiplies the sizes to compare them with the pixels, so their product must fit.
#[verifier::external_body]
fn encode_png(rgba: &Vec<u8>, w: u32, h: u32) -> (r: Png<Vec<u8>, String>)
    requires
        w * h * 4 <= usize::MAX,
    ensures
        r@ == png_said(rgba@, w, h),
{
    let mut buf: Vec<u8> = Vec::new();
    let mut enc = png::Encoder::new(&mut buf, w, h);
    enc.set_color(png::ColorType::Rgba);
    enc.set_depth(png::BitDepth::Eight);
    let written = match enc.write_header() {
        Err(e) => Err(Png::NoHead(e.to_string())),
        Ok(mut writer) => writer.write_image_data(rgba).map_err(|e| Png::NoPixels(e.to_string())),
    };
    match written {
        Ok(()) => Png::File(buf),
        Err(e) => e,
    }
}

/// What the `base64` crate writes for some bytes.
pub uninterp spec fn base64_said(bytes: Seq<u8>) -> Seq<char>;

/// `base64::engine::general_purpose::STANDARD.encode`: the text depends on the bytes alone, and has
/// four characters for each three bytes, the last three filled up.
#[verifier::external_body]
fn encode_base64(bytes: &Vec<u8>) -> (r: String)
    ensures
        r@ == base64_said(bytes@),
        r@.len() == (bytes@.len() + 2) / 3 * 4,
{
    base64::Engine::encode(&base64::engine::general_purpose::STANDARD, bytes)
}

/// The text of a picture, or why it could not be written, from what was written as PNG.
pub open spec fn picture_said(p: Png<Seq<u8>, Seq<char>>) -> Result<Seq<char>, Seq<char>> {
    match p {
        Png::File(b) => Ok(base64_said(b)),
        Png::NoHead(e) => Err("PNG 写头失败: "@ + e),
        Png::NoPixels(e) => Err("PNG 写像素失败: "@ + e),
    }
}

/// What the text of a picture says, or why there is none.
pub open spec fn text_or_why(r: Result<String, String>) -> Result<Seq<char>, Seq<char>> {
    match r {
        Ok(s) => Ok(s@),
        Err(e) => Err(e@),
    }
}

/// The text of a picture, or why it could not be written, from what was written as PNG.
pub fn picture_text(p: &Png<Vec<u8>, String>) -> (r: Result<String, String>)
    ensures
        text_or_why(r) == picture_said(p@),
{
    match p {
        Png::File(b) => Ok(encode_base64(b)),
        Png::NoHead(e) => Err(behind("PNG 写头失败: ", e.as_str())),
        Png::NoPixels(e) => Err(behind("PNG 写像素失败: ", e.as_str())),
    }
}

/// The text of a picture that has these pixels, or why it could not be written.
pub fn rgba_to_png_b64(rgba: &Vec<u8>, w: u32, h: u32) -> (r: Result<String, String>)
    requires
        w * h * 4 <= usize::MAX,
    ensures
        text_or_why(r) == picture_said(png_said(rgba@, w, h)),
{
    let p = encode_png(rgba, w, h);
    picture_text(&p)
}

/// What was masked tells nothing of what it was: two screenshots that differ only in what is masked
/// become the same, pixel by pixel.
pub proof fn law_masked_pixels_tell_nothing(a: Seq<u8>, b: Seq<u8>, x: Seq<u8>, y: Seq<u8>, w: int, h: int, rects: Seq<PixelRect>, px: int, py: int, k: int)
    requires
        is_masked(a, x, w, h, rects),
        is_masked(b, y, w, h, rects),
        0 <= px < w,
        0 <= py < h,
        0 <= k < 4,
        is_covered(rects, px, py) || byte_of(a, w, h, px, py, k) == byte_of(b, w, h, px, py, k),
    ensures
        byte_of(x, w, h, px, py, k) == byte_of(y, w, h, px, py, k),
{
}

/// The rows of a picture lie from the top to the bottom, the pixels of a row from left to right, with
/// four bytes each.
pub proof fn law_rows_run_from_the_top(w: int, h: int, x: int, y: int)
    ensures
        pixel_at(w, h, 0, h - 1) == 0,
        pixel_at(w, h, x + 1, y) == pixel_at(w, h, x, y) + 4,
        pixel_at(w, h, x, y - 1) == pixel_at(w, h, x, y) + 4 * w,
{
    assert((h - 1 - (y - 1)) * w == (h - 1 - y) * w + w) by (nonlinear_arith);
    assert((h - 1 - (h - 1)) * w == 0) by (nonlinear_arith);
}

/// A masked pixel is black and lets nothing through; one is masked where any rectangle holds it, its
/// first edges counted and its last ones not; all others stay.
pub proof fn law_covered_pixels_are_black(before: Seq<u8>, after: Seq<u8>, w: int, h: int, rects: Seq<PixelRect>, x: int, y: int)
    requires
        is_masked(before, after, w, h, rects),
        0 <= x < w,
        0 <= y < h,
    ensures
        (exists|k: int| 0 <= k < rects.len() && (#[trigger] rects[k]).x0 <= x < rects[k].x1 && rects[k].y0 <= y < rects[k].y1) ==> {
            &&& after[pixel_at(w, h, x, y)] == 0
            &&& after[pixel_at(w, h, x, y) + 1] == 0
            &&& after[pixel_at(w, h, x, y) + 2] == 0
            &&& after[pixel_at(w, h, x, y) + 3] == 255
        },
        (forall|k: int| 0 <= k < rects.len() ==> !((#[trigger] rects[k]).x0 <= x < rects[k].x1 && rects[k].y0 <= y < rects[k].y1)) ==> (forall|k: int| 0 <= k < 4 ==> after[pixel_at(w, h, x, y) + k] == #[trigger] before[pixel_at(w, h, x, y) + k]),
        after.len() == before.len(),
{
    assert(byte_of(after, w, h, x, y, 0) == after[pixel_at(w, h, x, y) + 0]);
    assert(byte_of(after, w, h, x, y, 1) == after[pixel_at(w, h, x, y) + 1]);
    assert(byte_of(after, w, h, x, y, 2) == after[pixel_at(w, h, x, y) + 2]);
    assert(byte_of(after, w, h, x, y, 3) == after[pixel_at(w, h, x, y) + 3]);
    if exists|k: int| 0 <= k < rects.len() && (#[trigger] rects[k]).x0 <= x < rects[k].x1 && rects[k].y0 <= y < rects[k].y1 {
        let k = choose|k: int| 0 <= k < rects.len() && (#[trigger] rects[k]).x0 <= x < rects[k].x1 && rects[k].y0 <= y < rects[k].y1;
        assert(holds_pixel(rects[k], x, y));
        assert(is_covered(rects, x, y));
    }
    if forall|k: int| 0 <= k < rects.len() ==> !((#[trigger] rects[k]).x0 <= x < rects[k].x1 && rects[k].y0 <= y < rects[k].y1) {
        assert(!is_covered(rects, x, y));
        assert forall|k: int| 0 <= k < 4 implies after[pixel_at(w, h, x, y) + k] == #[trigger] before[pixel_at(w, h, x, y) + k] by {
            assert(byte_of(after, w, h, x, y, k) == byte_of(before, w, h, x, y, k));
        }
    }
}

/// A number is clipped to nothing below and to the bound above, and stays between.
pub proof fn law_number_is_clipped(n: i64, most: usize)
    ensures
        clipped(n, most) <= most,
        n <= 0 ==> clipped(n, most) == 0,
        0 <= n <= most ==> clipped(n, most) == n,
        n > most ==> clipped(n, most) == most,
{
}

/// A picture is the text of its file, and a file that could not be written says why.
pub proof fn law_picture_is_its_file(p: Png<Seq<u8>, Seq<char>>)
    ensures
        p matches Png::File(b) ==> picture_said(p) == Ok::<Seq<char>, Seq<char>>(base64_said(b)),
        p matches Png::NoHead(e) ==> (picture_said(p) matches Err(w) && e.is_suffix_of(w)),
        p matches Png::NoPixels(e) ==> (picture_said(p) matches Err(w) && e.is_suffix_of(w)),
{
    if let Png::NoHead(e) = p {
        let w = "PNG 写头失败: "@ + e;
        assert(w.subrange(w.len() - e.len(), w.len() as int) =~= e);
    }
    if let Png::NoPixels(e) = p {
        let w = "PNG 写像素失败: "@ + e;
        assert(w.subrange(w.len() - e.len(), w.len() as int) =~= e);
    }
}

} // verus!
