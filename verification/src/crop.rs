use vstd::prelude::*;
use crate::text::{dec, push_char, push_dec, push_str};

verus! {

/// Pixel rectangle inside a square frame, used for both overlays and ffmpeg crops.
#[derive(Clone, Copy, Debug, PartialEq, Eq, Structural)]
pub struct PixelRect {
    pub x: u32,
    pub y: u32,
    pub w: u32,
    pub h: u32,
}

/// The text of the ffmpeg filter `crop=w:h:x:y`.
pub open spec fn crop_filter(r: PixelRect) -> Seq<char> {
    "crop="@ + dec(r.w as nat) + ":"@ + dec(r.h as nat) + ":"@ + dec(r.x as nat) + ":"@ + dec(
        r.y as nat,
    )
}

impl PixelRect {
    pub fn ffmpeg_crop(self) -> (r: String)
        ensures
            r@ == crop_filter(self),
    {
        let mut s = String::new();
        push_str(&mut s, "crop=");
        push_dec(&mut s, self.w as u128);
        push_char(&mut s, ':');
        push_dec(&mut s, self.h as u128);
        push_char(&mut s, ':');
        push_dec(&mut s, self.x as u128);
        push_char(&mut s, ':');
        push_dec(&mut s, self.y as u128);
        proof {
            assert(":"@ =~= seq![':']) by {
                reveal_strlit(":");
            }
            assert(s@ =~= crop_filter(self));
        }
        s
    }
}

#[derive(Clone, Copy, Debug, PartialEq, Eq, Structural)]
pub struct SquareCrops {
    pub side: u32,
    pub horizontal: PixelRect,
    pub vertical: PixelRect,
}

/// `n` rounded down to an even number.
pub open spec fn evened(n: int) -> int {
    n - n % 2
}

pub open spec fn min(a: int, b: int) -> int {
    if a <= b {
        a
    } else {
        b
    }
}

pub open spec fn max(a: int, b: int) -> int {
    if a >= b {
        a
    } else {
        b
    }
}

/// Round down to an even number (h264 wants even frame sides).
pub fn even(n: u32) -> (r: u32)
    ensures
        r == evened(n as int),
{
    assert(n & !1u32 == n - n % 2) by (bit_vector);
    n & !1
}

// ---------------------------------------------------------------------------
// 16:9 crops of a square
// ---------------------------------------------------------------------------

/// The side of the square that the crops are cut from.
pub open spec fn crop_side(side: int) -> int {
    evened(max(side, 16))
}

/// The short side of the 16:9 band: `9/16` of the square's side, rounded to the nearest
/// integer (halves up), then down to an even number, and at least 2.
pub open spec fn band_width(side: int) -> int {
    max(evened((9 * crop_side(side) + 8) / 16), 2)
}

/// Where the band starts, so that it stands in the middle of the square.
pub open spec fn band_offset(side: int) -> int {
    evened((crop_side(side) - band_width(side)) / 2)
}

/// The landscape and portrait crops of a square of the given side.
pub open spec fn square_crops(side: int) -> SquareCrops {
    let s = crop_side(side);
    let b = band_width(side);
    let o = band_offset(side);
    SquareCrops {
        side: s as u32,
        horizontal: PixelRect { x: 0, y: o as u32, w: s as u32, h: b as u32 },
        vertical: PixelRect { x: o as u32, y: 0, w: b as u32, h: s as u32 },
    }
}

/// 16:9 landscape and 9:16 portrait crops centered in a square.
pub fn crops_for_square(side: u32) -> (r: SquareCrops)
    ensures
        r == square_crops(side as int),
{
    let s = even(if side >= 16 {
        side
    } else {
        16
    });
    let rounded: u64 = (9 * (s as u64) + 8) / 16;
    assert(rounded <= s);
    let band0 = even(rounded as u32);
    let band = if band0 >= 2 {
        band0
    } else {
        2
    };
    assert(band <= s);
    let offset = even((s - band) / 2);
    let limit = s - band;
    let ypos = if offset <= limit {
        offset
    } else {
        limit
    };
    let h = if band <= s {
        band
    } else {
        s
    };
    SquareCrops {
        side: s,
        horizontal: PixelRect { x: 0, y: ypos, w: s, h },
        vertical: PixelRect { x: ypos, y: 0, w: h, h: s },
    }
}

/// Both crops stay inside the square, have even sides, and one is the other turned a
/// quarter: the portrait crop is the landscape crop with x and y, w and h swapped.
pub proof fn lemma_crops_fit(side: u32)
    ensures
        ({
            let c = square_crops(side as int);
            &&& c.horizontal.y + c.horizontal.h <= c.side
            &&& c.vertical.x + c.vertical.w <= c.side
            &&& c.horizontal.x == 0 && c.horizontal.w == c.side
            &&& c.vertical.y == 0 && c.vertical.h == c.side
            &&& c.horizontal.w % 2 == 0 && c.horizontal.h % 2 == 0
            &&& c.vertical.w % 2 == 0 && c.vertical.h % 2 == 0
            &&& c.vertical.x == c.horizontal.y && c.vertical.w == c.horizontal.h
            &&& c.side >= 16
        }),
{
}

/// The band is 16:9 up to rounding (`|16 * short - 9 * long| <= 24`) and is centered:
/// the margins on its two sides differ by at most 2 pixels.
pub proof fn lemma_crops_shape(side: u32)
    ensures
        ({
            let c = square_crops(side as int);
            let short = c.horizontal.h as int;
            let long = c.horizontal.w as int;
            let before = c.horizontal.y as int;
            let after = long - short - before;
            &&& -24 <= 16 * short - 9 * long <= 24
            &&& 0 <= after - before <= 2
        }),
{
}

// ---------------------------------------------------------------------------
// Square frames cut out of RGB24 images
// ---------------------------------------------------------------------------

/// The channel `c` of pixel `(x, y)` in an RGB24 image `n` pixels wide.
pub open spec fn px(img: Seq<u8>, n: int, x: int, y: int, c: int) -> u8 {
    img[(y * n + x) * 3 + c]
}

/// The side of the centered square of an image (even, and no longer than either side).
pub open spec fn centered_side(width: int, height: int) -> int {
    evened(min(width, height))
}

/// The centered square of a frame is as large as its shorter side allows, rounded down to an
/// even side, and centered: the margins on its two sides differ by at most one pixel.
pub proof fn lemma_centered_square(width: int, height: int)
    requires
        width >= 0,
        height >= 0,
    ensures
        ({
            let s = centered_side(width, height);
            let short = if width <= height {
                width
            } else {
                height
            };
            let x0 = (width - s) / 2;
            let y0 = (height - s) / 2;
            &&& s % 2 == 0
            &&& short - 1 <= s <= short
            &&& 0 <= (width - s - x0) - x0 <= 1
            &&& 0 <= (height - s - y0) - y0 <= 1
        }),
{
}

/// Whether an RGB24 buffer is too small for a `width` x `height` image.
pub open spec fn short_buffer(rgb: Seq<u8>, width: int, height: int) -> bool {
    rgb.len() < width * height * 3
}

proof fn lemma_mul_lt(a: int, b: int, c: int)
    by (nonlinear_arith)
    requires
        0 <= a < b,
        c > 0,
    ensures
        a * c < b * c,
{
}

proof fn lemma_u32_product(a: int, b: int)
    by (nonlinear_arith)
    requires
        0 <= a <= 0xffff_ffff,
        0 <= b <= 0xffff_ffff,
    ensures
        0 <= a * b <= 0xffff_ffff * 0xffff_ffff,
{
}

proof fn lemma_row_before(n: int, xx: int, yy: int, y: int)
    by (nonlinear_arith)
    requires
        0 <= xx < n,
        0 <= yy < y,
    ensures
        yy * n + xx < y * n,
{
}

proof fn lemma_next_row(n: int, y: int)
    by (nonlinear_arith)
    ensures
        y * n + n == (y + 1) * n,
{
}

/// A pixel inside the image lies inside a buffer of `width * height * 3` bytes.
proof fn lemma_pixel_in_image(width: int, height: int, x: int, y: int, c: int)
    requires
        0 <= x < width,
        0 <= y < height,
        0 <= c < 3,
    ensures
        0 <= (y * width + x) * 3 + c < width * height * 3,
{
    assert(y * width + width <= height * width) by (nonlinear_arith)
        requires
            y + 1 <= height,
            width >= 0,
    ;
    assert(height * width == width * height) by (nonlinear_arith);
    assert(0 <= y * width) by (nonlinear_arith)
        requires
            0 <= y,
            0 <= width,
    ;
}

/// Center-crop an RGB24 frame to a 1:1 square with even sides (h264-friendly).
pub fn center_square_rgb(rgb: &[u8], width: u32, height: u32) -> (r: Option<(Vec<u8>, u32)>)
    ensures
        r is None <==> (width == 0 || height == 0 || short_buffer(rgb@, width as int, height as int)
            || centered_side(width as int, height as int) < 16),
        r matches Some((out, side)) ==> {
            let x0 = (width - side) / 2;
            let y0 = (height - side) / 2;
            &&& side == centered_side(width as int, height as int)
            &&& out@.len() == side * side * 3
            &&& forall|x: int, y: int, c: int|
                0 <= x < side && 0 <= y < side && 0 <= c < 3 ==> #[trigger] px(
                    out@,
                    side as int,
                    x,
                    y,
                    c,
                ) == px(rgb@, width as int, x0 + x, y0 + y, c)
        },
{
    if width == 0 || height == 0 {
        return None;
    }
    proof {
        lemma_u32_product(width as int, height as int);
    }
    let expected: u128 = (width as u128) * (height as u128) * 3;
    if (rgb.len() as u128) < expected {
        return None;
    }
    let side = even(if width <= height {
        width
    } else {
        height
    });
    if side < 16 {
        return None;
    }
    let x0 = (width - side) / 2;
    let y0 = (height - side) / 2;
    let ghost n = side as int;
    let ghost w = width as int;
    let rlen = rgb.len();
    let mut out: Vec<u8> = Vec::new();
    let mut y: u32 = 0;
    while y < side
        invariant
            n == side as int,
            w == width as int,
            16 <= side <= width,
            side <= height,
            x0 == (width - side) / 2,
            y0 == (height - side) / 2,
            0 <= y <= side,
            rlen == rgb@.len(),
            rgb@.len() >= w * height * 3,
            out@.len() == y * n * 3,
            forall|xx: int, yy: int, c: int|
                0 <= xx < n && 0 <= yy < y && 0 <= c < 3 ==> #[trigger] px(out@, n, xx, yy, c)
                    == px(rgb@, w, x0 + xx, y0 + yy, c),
        decreases side - y,
    {
        proof {
            lemma_u32_product((y0 + y) as int, w);
            lemma_pixel_in_image(w, height as int, x0 + n - 1, y0 + y, 2);
            assert(((y0 + y) * w + x0) * 3 + n * 3 == ((y0 + y) * w + x0 + n - 1) * 3 + 2 + 1);
        }
        let src: usize = (((y0 + y) as u64 * width as u64 + x0 as u64) * 3) as usize;
        let len: usize = side as usize * 3;
        let ghost before = out@;
        let row = &rgb[src..src + len];
        assert(row@ == rgb@.subrange(src as int, src + len));
        out.extend_from_slice(row);
        assert(out@ == before + row@);
        proof {
            lemma_next_row(n, y as int);
            assert forall|xx: int, yy: int, c: int|
                0 <= xx < n && 0 <= yy < y + 1 && 0 <= c < 3 implies #[trigger] px(out@, n, xx, yy, c)
                == px(rgb@, w, x0 + xx, y0 + yy, c) by {
                if yy < y {
                    lemma_row_before(n, xx, yy, y as int);
                    assert(px(out@, n, xx, yy, c) == px(before, n, xx, yy, c));
                } else {
                    assert((yy * n + xx) * 3 + c == before.len() + (xx * 3 + c));
                    assert(out@[(yy * n + xx) * 3 + c] == row@[xx * 3 + c]);
                    assert(row@[xx * 3 + c] == rgb@[src + xx * 3 + c]);
                    assert(src + xx * 3 + c == ((y0 + yy) * w + (x0 + xx)) * 3 + c);
                }
            }
        }
        y = y + 1;
    }
    Some((out, side))
}

/// The side of the square that `scale_square` writes.
pub open spec fn scaled_side(width: int, height: int, out_side: int) -> int {
    evened(min(out_side, centered_side(width, height)))
}

/// The source byte that `scale_square` copies to channel `c` of output pixel `(x, y)`:
/// nearest-neighbour sampling of the centered square, mirrored left to right on request.
pub open spec fn scaled_sample(
    rgb: Seq<u8>,
    width: int,
    height: int,
    n: int,
    mirror: bool,
    x: int,
    y: int,
    c: int,
) -> u8 {
    let s = centered_side(width, height);
    let x0 = (width - s) / 2;
    let y0 = (height - s) / 2;
    let sx = if mirror {
        n - 1 - x
    } else {
        x
    };
    px(rgb, width, x0 + sx * s / n, y0 + y * s / n, c)
}

proof fn lemma_scaled_index(i: int, n: int, s: int)
    requires
        0 <= i < n,
        0 < n <= s,
    ensures
        0 <= i * s / n < s,
{
    lemma_mul_lt(i, n, s);
    assert(i * s >= 0) by (nonlinear_arith)
        requires
            i >= 0,
            s >= 0,
    ;
    assert(n * s == s * n) by (nonlinear_arith);
    vstd::arithmetic::div_mod::lemma_multiply_divide_lt(i * s, n, s);
    vstd::arithmetic::div_mod::lemma_div_pos_is_pos(i * s, n);
}

/// Output index `i` of `n` takes source offset `j` of `s`: `j * n <= i * s < (j + 1) * n`, so
/// the `n` outputs are spread evenly over all `s` offsets, the first at offset 0 and the last
/// within the final `s / n` offsets.
pub open spec fn spread(i: int, n: int, s: int, j: int) -> bool {
    n * j <= i * s < n * (j + 1)
}

/// The column of the unmirrored picture that output column `x` of `n` shows.
pub open spec fn mirrored(mirror: bool, n: int, x: int) -> int {
    if mirror {
        n - 1 - x
    } else {
        x
    }
}

/// Pixel `(x, y)` of the `n`-pixel square `out` is the pixel of the centered square of the
/// `width` x `height` image `rgb` at the offsets that spread the output evenly over the whole
/// centered square (output columns in reverse order when `mirror`).
pub open spec fn from_centered_square(
    out: Seq<u8>,
    n: int,
    rgb: Seq<u8>,
    width: int,
    height: int,
    mirror: bool,
    x: int,
    y: int,
    c: int,
) -> bool {
    let s = centered_side(width, height);
    let x0 = (width - s) / 2;
    let y0 = (height - s) / 2;
    exists|i: int, j: int|
        #![trigger spread(mirrored(mirror, n, x), n, s, i), spread(y, n, s, j)]
        0 <= i < s && 0 <= j < s && spread(mirrored(mirror, n, x), n, s, i) && spread(y, n, s, j)
            && px(out, n, x, y, c) == px(rgb, width, x0 + i, y0 + j, c)
}

/// `out` is an `n`-pixel square that shows the whole centered square of `rgb`, shrunk (or
/// kept) by even sampling: every pixel satisfies `from_centered_square`.
pub open spec fn covers_centered_square(
    out: Seq<u8>,
    n: int,
    rgb: Seq<u8>,
    width: int,
    height: int,
    mirror: bool,
) -> bool {
    forall|x: int, y: int, c: int|
        0 <= x < n && 0 <= y < n && 0 <= c < 3 ==> #[trigger] from_centered_square(
            out,
            n,
            rgb,
            width,
            height,
            mirror,
            x,
            y,
            c,
        )
}

proof fn lemma_spread(i: int, n: int, s: int)
    requires
        0 <= i < n,
        0 < n <= s,
    ensures
        spread(i, n, s, i * s / n),
        0 <= i * s / n < s,
{
    lemma_scaled_index(i, n, s);
    let a = i * s;
    let q = a / n;
    vstd::arithmetic::div_mod::lemma_fundamental_div_mod(a, n);
    vstd::arithmetic::div_mod::lemma_mod_bound(a, n);
    assert(n * (q + 1) == n * q + n) by (nonlinear_arith);
}

/// The square that `scale_square` writes covers the whole centered square of the frame: each
/// output pixel is the source pixel at the evenly spread offsets, so the output is the centered
/// square shrunk (or kept), never a corner of it.
pub proof fn lemma_scaled_square_covers(
    rgb: Seq<u8>,
    width: int,
    height: int,
    n: int,
    mirror: bool,
    out: Seq<u8>,
)
    requires
        16 <= n <= centered_side(width, height),
        forall|x: int, y: int, c: int|
            0 <= x < n && 0 <= y < n && 0 <= c < 3 ==> #[trigger] px(out, n, x, y, c)
                == scaled_sample(rgb, width, height, n, mirror, x, y, c),
    ensures
        covers_centered_square(out, n, rgb, width, height, mirror),
{
    let s = centered_side(width, height);
    let x0 = (width - s) / 2;
    let y0 = (height - s) / 2;
    assert forall|x: int, y: int, c: int| 0 <= x < n && 0 <= y < n && 0 <= c < 3 implies #[trigger] from_centered_square(
        out,
        n,
        rgb,
        width,
        height,
        mirror,
        x,
        y,
        c,
    ) by {
        let sx = mirrored(mirror, n, x);
        lemma_spread(sx, n, s);
        lemma_spread(y, n, s);
        let i = sx * s / n;
        let j = y * s / n;
        assert(px(out, n, x, y, c) == scaled_sample(rgb, width, height, n, mirror, x, y, c));
        assert(scaled_sample(rgb, width, height, n, mirror, x, y, c) == px(rgb, width, x0 + i, y0 + j, c));
        assert(0 <= i < s && 0 <= j < s && spread(sx, n, s, i) && spread(y, n, s, j) && px(out, n, x, y, c)
            == px(rgb, width, x0 + i, y0 + j, c));
    }
}

/// Center-crop to a square and scale into `out`. Set `mirror` to flip horizontally.
pub fn scale_square(
    rgb: &[u8],
    width: u32,
    height: u32,
    out_side: u32,
    mirror: bool,
    out: &mut Vec<u8>,
) -> (r: Option<u32>)
    ensures
        r is None <==> (width == 0 || height == 0 || short_buffer(rgb@, width as int, height as int)
            || scaled_side(width as int, height as int, out_side as int) < 16),
        r is None ==> final(out)@ == old(out)@,
        r matches Some(n) ==> {
            &&& n == scaled_side(width as int, height as int, out_side as int)
            &&& final(out)@.len() == n * n * 3
            &&& forall|x: int, y: int, c: int|
                0 <= x < n && 0 <= y < n && 0 <= c < 3 ==> #[trigger] px(final(out)@, n as int, x, y, c)
                    == scaled_sample(rgb@, width as int, height as int, n as int, mirror, x, y, c)
            &&& covers_centered_square(
                final(out)@,
                n as int,
                rgb@,
                width as int,
                height as int,
                mirror,
            )
        },
{
    if width == 0 || height == 0 {
        return None;
    }
    proof {
        lemma_u32_product(width as int, height as int);
    }
    let expected: u128 = (width as u128) * (height as u128) * 3;
    if (rgb.len() as u128) < expected {
        return None;
    }
    let src_side = even(if width <= height {
        width
    } else {
        height
    });
    let n = even(if out_side <= src_side {
        out_side
    } else {
        src_side
    });
    if n < 16 {
        return None;
    }
    let x0 = (width - src_side) / 2;
    let y0 = (height - src_side) / 2;
    let ghost w = width as int;
    let ghost s = src_side as int;
    let ghost m = n as int;
    let rlen = rgb.len();
    out.clear();
    let mut y: u32 = 0;
    while y < n
        invariant
            w == width as int,
            s == src_side as int,
            m == n as int,
            s == centered_side(width as int, height as int),
            16 <= n <= src_side <= width,
            src_side <= height,
            x0 == (width - src_side) / 2,
            y0 == (height - src_side) / 2,
            0 <= y <= n,
            rlen == rgb@.len(),
            rgb@.len() >= w * height * 3,
            out@.len() == y * m * 3,
            forall|xx: int, yy: int, c: int|
                0 <= xx < m && 0 <= yy < y && 0 <= c < 3 ==> #[trigger] px(out@, m, xx, yy, c)
                    == scaled_sample(rgb@, w, height as int, m, mirror, xx, yy, c),
        decreases n - y,
    {
        proof {
            lemma_scaled_index(y as int, m, s);
            lemma_u32_product(y as int, s);
        }
        let src_y: u64 = y0 as u64 + (y as u64 * src_side as u64) / n as u64;
        proof {
            lemma_u32_product(src_y as int, w);
        }
        let src_row: u64 = src_y * width as u64;
        let mut x: u32 = 0;
        while x < n
            invariant
                w == width as int,
                s == src_side as int,
                m == n as int,
                s == centered_side(width as int, height as int),
                16 <= n <= src_side <= width,
                src_side <= height,
                x0 == (width - src_side) / 2,
                y0 == (height - src_side) / 2,
                0 <= y < n,
                0 <= x <= n,
                src_y == y0 + y * s / m,
                src_y < height,
                src_row == src_y * w,
                rlen == rgb@.len(),
                rgb@.len() >= w * height * 3,
                out@.len() == (y * m + x) * 3,
                forall|xx: int, yy: int, c: int|
                    0 <= xx < m && 0 <= yy < y && 0 <= c < 3 ==> #[trigger] px(out@, m, xx, yy, c)
                        == scaled_sample(rgb@, w, height as int, m, mirror, xx, yy, c),
                forall|xx: int, c: int|
                    0 <= xx < x && 0 <= c < 3 ==> #[trigger] px(out@, m, xx, y as int, c)
                        == scaled_sample(rgb@, w, height as int, m, mirror, xx, y as int, c),
            decreases n - x,
        {
            let sample_x = if mirror {
                n - 1 - x
            } else {
                x
            };
            proof {
                lemma_scaled_index(sample_x as int, m, s);
                lemma_u32_product(sample_x as int, s);
            }
            let src_x: u64 = x0 as u64 + (sample_x as u64 * src_side as u64) / n as u64;
            proof {
                lemma_pixel_in_image(w, height as int, src_x as int, src_y as int, 2);
            }
            let src: usize = ((src_row + src_x) * 3) as usize;
            let ghost before = out@;
            out.push(rgb[src]);
            out.push(rgb[src + 1]);
            out.push(rgb[src + 2]);
            proof {
                assert forall|xx: int, yy: int, c: int|
                    0 <= xx < m && 0 <= yy < y && 0 <= c < 3 implies #[trigger] px(out@, m, xx, yy, c)
                    == scaled_sample(rgb@, w, height as int, m, mirror, xx, yy, c) by {
                    lemma_row_before(m, xx, yy, y as int);
                    assert(px(out@, m, xx, yy, c) == px(before, m, xx, yy, c));
                }
                assert forall|xx: int, c: int|
                    0 <= xx < x + 1 && 0 <= c < 3 implies #[trigger] px(out@, m, xx, y as int, c)
                    == scaled_sample(rgb@, w, height as int, m, mirror, xx, y as int, c) by {
                    if xx < x {
                        assert(px(out@, m, xx, y as int, c) == px(before, m, xx, y as int, c));
                    } else {
                        assert(px(out@, m, xx, y as int, c) == out@[before.len() + c]);
                        assert(scaled_sample(rgb@, w, height as int, m, mirror, xx, y as int, c)
                            == rgb@[(src_y * w + src_x) * 3 + c]);
                    }
                }
            }
            x = x + 1;
        }
        proof {
            lemma_next_row(m, y as int);
        }
        y = y + 1;
    }
    proof {
        lemma_scaled_square_covers(rgb@, w, height as int, m, mirror, out@);
    }
    Some(n)
}

} // verus!
