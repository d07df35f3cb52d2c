use vstd::prelude::*;
use crate::quality::{quality_side, OutputQuality, PREVIEW_SIDE};
use crate::crop::{covers_centered_square, evened, min, px, scale_square, scaled_sample, scaled_side, short_buffer};

verus! {

/// The pixel formats a camera can deliver.
#[derive(Clone, Copy, Debug, PartialEq, Eq, Structural)]
pub enum FrameCodec {
    Mjpeg,
    Yuyv,
    Nv12,
    Gray,
    RawRgb,
    RawBgr,
}

/// One mode a camera offers.
#[derive(Clone, Copy, Debug, PartialEq, Eq, Structural)]
pub struct FormatInfo {
    pub width: u32,
    pub height: u32,
    pub frame_rate: u32,
    pub codec: FrameCodec,
}

/// The landscape frame a quality captures.
pub open spec fn capture_width(q: OutputQuality) -> int {
    quality_side(q) * 16 / 9
}

/// How a camera mode ranks for a quality, lowest first: not too small, not too large, at
/// least 24 frames per second, an area close to the target's, a cheap codec (MJPEG or NV12),
/// then the higher frame rate (counted up to 120).
pub open spec fn format_rank(f: FormatInfo, q: OutputQuality) -> Seq<int> {
    let tw = capture_width(q);
    let th = quality_side(q) as int;
    let area = f.width * f.height;
    let capped_area = if area > u32::MAX {
        u32::MAX as int
    } else {
        area
    };
    let target = tw * th;
    seq![
        if f.width < tw && f.height < th {
            1int
        } else {
            0int
        },
        if f.width > 2 * tw || f.height > 2 * th {
            1int
        } else {
            0int
        },
        if f.frame_rate < 24 {
            1int
        } else {
            0int
        },
        if capped_area >= target {
            capped_area - target
        } else {
            target - capped_area
        },
        if f.codec == FrameCodec::Mjpeg || f.codec == FrameCodec::Nv12 {
            0int
        } else {
            1int
        },
        if f.frame_rate >= 120 {
            0int
        } else {
            120 - f.frame_rate
        },
    ]
}

/// Lexicographic order on ranks of equal length.
pub open spec fn rank_lt(a: Seq<int>, b: Seq<int>) -> bool
    decreases a.len(),
{
    if a.len() == 0 || b.len() == 0 {
        false
    } else if a[0] != b[0] {
        a[0] < b[0]
    } else {
        rank_lt(a.drop_first(), b.drop_first())
    }
}

/// The exact rank of a mode, computed in machine integers.
fn rank_of(f: FormatInfo, q: OutputQuality) -> (r: [u64; 6])
    ensures
        r@.map_values(|x: u64| x as int) == format_rank(f, q),
{
    let (tw, th) = q.capture_size();
    assert(tw as int * th as int <= 3840 * 2160) by (nonlinear_arith)
        requires
            tw <= 3840,
            th <= 2160,
    ;
    let target: u64 = tw as u64 * th as u64;
    let undersized: u64 = if f.width < tw && f.height < th {
        1
    } else {
        0
    };
    let oversized: u64 = if f.width as u64 > 2 * tw as u64 || f.height as u64 > 2 * th as u64 {
        1
    } else {
        0
    };
    let slow: u64 = if f.frame_rate < 24 {
        1
    } else {
        0
    };
    assert(f.width as u64 * f.height as u64 <= 0xffff_ffff_ffff_ffff) by (nonlinear_arith)
        requires
            f.width <= 0xffff_ffff,
            f.height <= 0xffff_ffff,
    ;
    let full: u64 = f.width as u64 * f.height as u64;
    let area: u64 = if full > 0xffff_ffff {
        0xffff_ffff
    } else {
        full
    };
    let size: u64 = if area >= target {
        area - target
    } else {
        target - area
    };
    let codec: u64 = match f.codec {
        FrameCodec::Mjpeg | FrameCodec::Nv12 => 0,
        _ => 1,
    };
    let speed: u64 = if f.frame_rate >= 120 {
        0
    } else {
        120 - f.frame_rate as u64
    };
    let r = [undersized, oversized, slow, size, codec, speed];
    assert(tw as int == capture_width(q));
    assert(r@.map_values(|x: u64| x as int) =~= format_rank(f, q));
    r
}

fn rank_less(a: &[u64; 6], b: &[u64; 6]) -> (r: bool)
    ensures
        r == rank_lt(a@.map_values(|x: u64| x as int), b@.map_values(|x: u64| x as int)),
{
    let ghost sa = a@.map_values(|x: u64| x as int);
    let ghost sb = b@.map_values(|x: u64| x as int);
    let mut i: usize = 0;
    assert(sa.skip(0) =~= sa);
    assert(sb.skip(0) =~= sb);
    while i < 6
        invariant
            0 <= i <= 6,
            sa == a@.map_values(|x: u64| x as int),
            sb == b@.map_values(|x: u64| x as int),
            rank_lt(sa, sb) == rank_lt(sa.skip(i as int), sb.skip(i as int)),
        decreases 6 - i,
    {
        assert(sa.skip(i as int)[0] == a[i as int]);
        assert(sb.skip(i as int)[0] == b[i as int]);
        assert(sa.skip(i as int).drop_first() =~= sa.skip(i + 1));
        assert(sb.skip(i as int).drop_first() =~= sb.skip(i + 1));
        if a[i] != b[i] {
            return a[i] < b[i];
        }
        i = i + 1;
    }
    assert(sa.skip(6).len() == 0);
    false
}

proof fn lemma_rank_order(a: Seq<int>, b: Seq<int>, c: Seq<int>)
    requires
        a.len() == b.len() == c.len(),
    ensures
        rank_lt(a, b) && rank_lt(b, c) ==> rank_lt(a, c),
        !rank_lt(a, b) && !rank_lt(b, a) ==> a == b,
        !rank_lt(a, a),
        !rank_lt(a, b) && !rank_lt(b, c) ==> !rank_lt(a, c),
    decreases a.len(),
{
    if a.len() > 0 {
        lemma_rank_order(a.drop_first(), b.drop_first(), c.drop_first());
        if !rank_lt(a, b) && !rank_lt(b, a) {
            assert(a =~= seq![a[0]] + a.drop_first());
            assert(b =~= seq![b[0]] + b.drop_first());
        }
    } else {
        assert(a =~= b);
    }
}

/// A mode smaller than the quality's frame in both directions.
pub open spec fn undersized(f: FormatInfo, q: OutputQuality) -> bool {
    f.width < capture_width(q) && f.height < quality_side(q)
}

/// A mode more than twice the quality's frame in either direction.
pub open spec fn oversized(f: FormatInfo, q: OutputQuality) -> bool {
    f.width > 2 * capture_width(q) || f.height > 2 * quality_side(q)
}

/// A mode of at least 24 frames a second.
pub open spec fn smooth(f: FormatInfo) -> bool {
    f.frame_rate >= 24
}

/// The camera mode chosen (the first of lowest rank) is never worse than another on the first
/// criteria: it is not undersized if some mode is not; it is neither undersized nor oversized
/// if some mode is neither; and if some mode of the right size runs at 24 frames a second or
/// more, the chosen one is of the right size and does so too, whatever the sizes.
pub proof fn lemma_pick_prefers_fit_and_smooth(formats: Seq<FormatInfo>, q: OutputQuality, i: int)
    requires
        0 <= i < formats.len(),
        forall|j: int|
            0 <= j < formats.len() ==> !rank_lt(
                format_rank(#[trigger] formats[j], q),
                format_rank(formats[i], q),
            ),
    ensures
        (exists|j: int| 0 <= j < formats.len() && !undersized(#[trigger] formats[j], q)) ==> !undersized(
            formats[i],
            q,
        ),
        (exists|j: int|
            0 <= j < formats.len() && !undersized(#[trigger] formats[j], q) && !oversized(formats[j], q))
            ==> !undersized(formats[i], q) && !oversized(formats[i], q),
        (exists|j: int|
            0 <= j < formats.len() && !undersized(#[trigger] formats[j], q) && !oversized(formats[j], q)
                && smooth(formats[j])) ==> !undersized(formats[i], q) && !oversized(formats[i], q)
            && smooth(formats[i]),
{
    reveal_with_fuel(rank_lt, 4);
    let ri = format_rank(formats[i], q);
    assert(ri.drop_first()[0] == ri[1] && ri.drop_first()[1] == ri[2]);
    assert(ri.drop_first().drop_first()[0] == ri[2]);
    if exists|j: int| 0 <= j < formats.len() && !undersized(#[trigger] formats[j], q) {
        let j = choose|j: int| 0 <= j < formats.len() && !undersized(#[trigger] formats[j], q);
        let rj = format_rank(formats[j], q);
        assert(!rank_lt(rj, ri));
    }
    if exists|j: int|
        0 <= j < formats.len() && !undersized(#[trigger] formats[j], q) && !oversized(formats[j], q) {
        let j = choose|j: int|
            0 <= j < formats.len() && !undersized(#[trigger] formats[j], q) && !oversized(formats[j], q);
        let rj = format_rank(formats[j], q);
        assert(rj.drop_first()[0] == rj[1]);
        assert(!rank_lt(rj, ri));
    }
    if exists|j: int|
        0 <= j < formats.len() && !undersized(#[trigger] formats[j], q) && !oversized(formats[j], q)
            && smooth(formats[j]) {
        let j = choose|j: int|
            0 <= j < formats.len() && !undersized(#[trigger] formats[j], q) && !oversized(formats[j], q)
                && smooth(formats[j]);
        let rj = format_rank(formats[j], q);
        assert(rj.drop_first()[0] == rj[1] && rj.drop_first()[1] == rj[2]);
        assert(rj.drop_first().drop_first()[0] == rj[2]);
        assert(!rank_lt(rj, ri));
    }
}

/// The camera mode to ask for: the one of lowest rank, the first of them on a tie.
pub fn pick_preview_format(formats: &Vec<FormatInfo>, quality: OutputQuality) -> (r: Option<usize>)
    ensures
        formats@.len() == 0 <==> r is None,
        r matches Some(i) ==> {
            &&& i < formats@.len()
            &&& forall|j: int|
                0 <= j < formats@.len() ==> !rank_lt(
                    format_rank(#[trigger] formats@[j], quality),
                    format_rank(formats@[i as int], quality),
                )
            &&& forall|j: int|
                0 <= j < i ==> rank_lt(
                    format_rank(formats@[i as int], quality),
                    format_rank(#[trigger] formats@[j], quality),
                )
            &&& (exists|j: int|
                0 <= j < formats@.len() && !undersized(#[trigger] formats@[j], quality) && !oversized(
                    formats@[j],
                    quality,
                ) && smooth(formats@[j])) ==> !undersized(formats@[i as int], quality) && !oversized(
                formats@[i as int],
                quality,
            ) && smooth(formats@[i as int])
            &&& (exists|j: int| 0 <= j < formats@.len() && !undersized(#[trigger] formats@[j], quality))
                ==> !undersized(formats@[i as int], quality)
        },
{
    if formats.len() == 0 {
        return None;
    }
    let mut best: usize = 0;
    let mut best_rank = rank_of(formats[0], quality);
    proof {
        let r0 = format_rank(formats@[0], quality);
        lemma_rank_order(r0, r0, r0);
    }
    let mut i: usize = 1;
    while i < formats.len()
        invariant
            1 <= i <= formats@.len(),
            best < i,
            best_rank@.map_values(|x: u64| x as int) == format_rank(formats@[best as int], quality),
            forall|j: int|
                0 <= j < i ==> !rank_lt(
                    format_rank(#[trigger] formats@[j], quality),
                    format_rank(formats@[best as int], quality),
                ),
            forall|j: int|
                0 <= j < best ==> rank_lt(
                    format_rank(formats@[best as int], quality),
                    format_rank(#[trigger] formats@[j], quality),
                ),
        decreases formats@.len() - i,
    {
        let r = rank_of(formats[i], quality);
        let ghost old_best = best;
        if rank_less(&r, &best_rank) {
            proof {
                let ri = format_rank(formats@[i as int], quality);
                let rb = format_rank(formats@[old_best as int], quality);
                assert forall|j: int| 0 <= j < i + 1 implies !rank_lt(
                    format_rank(#[trigger] formats@[j], quality),
                    ri,
                ) by {
                    let rj = format_rank(formats@[j], quality);
                    lemma_rank_order(rj, ri, rb);
                    lemma_rank_order(ri, ri, ri);
                }
                assert forall|j: int| 0 <= j < i implies rank_lt(
                    ri,
                    format_rank(#[trigger] formats@[j], quality),
                ) by {
                    let rj = format_rank(formats@[j], quality);
                    lemma_rank_order(ri, rb, rj);
                    if !rank_lt(rb, rj) {
                        lemma_rank_order(rj, rb, rj);
                        assert(rj == rb);
                    }
                }
            }
            best = i;
            best_rank = r;
        }
        i = i + 1;
    }
    proof {
        lemma_pick_prefers_fit_and_smooth(formats@, quality, best as int);
    }
    Some(best)
}

/// The camera requests tried in turn when a preview opens: the quality's frame in MJPEG,
/// NV12 and YUYV, then 1080p and 720p in MJPEG, all at 30 frames per second.
pub fn preview_requests(quality: OutputQuality) -> (r: Vec<(u32, u32, FrameCodec)>)
    ensures
        r@ == seq![
            (capture_width(quality) as u32, quality_side(quality), FrameCodec::Mjpeg),
            (capture_width(quality) as u32, quality_side(quality), FrameCodec::Nv12),
            (capture_width(quality) as u32, quality_side(quality), FrameCodec::Yuyv),
            (1920u32, 1080u32, FrameCodec::Mjpeg),
            (1280u32, 720u32, FrameCodec::Mjpeg),
        ],
{
    let (w, h) = quality.capture_size();
    let mut r = Vec::new();
    r.push((w, h, FrameCodec::Mjpeg));
    r.push((w, h, FrameCodec::Nv12));
    r.push((w, h, FrameCodec::Yuyv));
    r.push((1920, 1080, FrameCodec::Mjpeg));
    r.push((1280, 720, FrameCodec::Mjpeg));
    assert(w as int == capture_width(quality));
    assert(r@ =~= seq![
        (capture_width(quality) as u32, quality_side(quality), FrameCodec::Mjpeg),
        (capture_width(quality) as u32, quality_side(quality), FrameCodec::Nv12),
        (capture_width(quality) as u32, quality_side(quality), FrameCodec::Yuyv),
        (1920u32, 1080u32, FrameCodec::Mjpeg),
        (1280u32, 720u32, FrameCodec::Mjpeg),
    ]);
    r
}

/// A camera frame cut to a mirrored square, with the smaller copy that the preview shows.
#[derive(Clone)]
pub struct SquareFrame {
    pub rgb: Vec<u8>,
    pub side: u32,
    pub preview: Vec<u8>,
    pub preview_side: u32,
    pub seq: u64,
}

/// `img` is the `n`-pixel square that `scale_square` makes of a `width` x `height` frame.
pub open spec fn scaled_image(
    img: Seq<u8>,
    n: int,
    src: Seq<u8>,
    width: int,
    height: int,
    mirror: bool,
) -> bool {
    &&& img.len() == n * n * 3
    &&& forall|x: int, y: int, c: int|
        0 <= x < n && 0 <= y < n && 0 <= c < 3 ==> #[trigger] px(img, n, x, y, c)
            == scaled_sample(src, width, height, n, mirror, x, y, c)
}

fn copy_bytes(v: &Vec<u8>) -> (r: Vec<u8>)
    ensures
        r@ == v@,
{
    let mut r: Vec<u8> = Vec::new();
    for i in 0..v.len()
        invariant
            r@ == v@.subrange(0, i as int),
    {
        r.push(v[i]);
        assert(r@ =~= v@.subrange(0, i + 1));
    }
    assert(r@ =~= v@);
    r
}

/// Whether a decoded frame gives no square of 16 pixels or more.
pub open spec fn frame_refused(decoded: Seq<u8>, width: int, height: int, target_side: int) -> bool {
    width == 0 || height == 0 || short_buffer(decoded, width, height) || scaled_side(
        width,
        height,
        target_side,
    ) < 16
}

/// `f` is the square that a decoded frame gives: mirrored, at most `target_side` pixels, and
/// its preview, cut down to `PREVIEW_SIDE` pixels where it is larger.
pub open spec fn frame_of(
    f: SquareFrame,
    decoded: Seq<u8>,
    width: int,
    height: int,
    target_side: int,
) -> bool {
    &&& f.side == scaled_side(width, height, target_side)
    &&& scaled_image(f.rgb@, f.side as int, decoded, width, height, true)
    &&& covers_centered_square(f.rgb@, f.side as int, decoded, width, height, true)
    &&& if f.side > PREVIEW_SIDE {
        &&& f.preview_side == scaled_side(f.side as int, f.side as int, PREVIEW_SIDE as int)
        &&& scaled_image(f.preview@, f.preview_side as int, f.rgb@, f.side as int, f.side as int, false)
        &&& covers_centered_square(
            f.preview@,
            f.preview_side as int,
            f.rgb@,
            f.side as int,
            f.side as int,
            false,
        )
    } else {
        &&& f.preview_side == f.side
        &&& f.preview@ == f.rgb@
    }
}

/// The shape of every square frame: an even side of 16 pixels or more and at most `target`,
/// and a preview of at most `PREVIEW_SIDE` pixels.
pub open spec fn frame_shape(f: SquareFrame, target: int) -> bool {
    &&& f.side % 2 == 0
    &&& 16 <= f.side <= target
    &&& f.rgb@.len() == f.side * f.side * 3
    &&& f.preview_side == min(f.side as int, PREVIEW_SIDE as int)
    &&& f.preview@.len() == f.preview_side * f.preview_side * 3
}

/// Turns one decoded RGB frame into the square the recording keeps (mirrored, at most
/// `target_side` pixels) and the copy of at most `PREVIEW_SIDE` pixels the window shows;
/// `None` where the frame gives no square of 16 pixels or more.
pub fn square_frame(decoded: &[u8], width: u32, height: u32, target_side: u32, seq: u64) -> (r:
    Option<SquareFrame>)
    ensures
        r is None <==> frame_refused(decoded@, width as int, height as int, target_side as int),
        r matches Some(f) ==> {
            &&& f.seq == seq
            &&& frame_of(f, decoded@, width as int, height as int, target_side as int)
            &&& frame_shape(f, target_side as int)
        },
{
    let mut square: Vec<u8> = Vec::new();
    let side = match scale_square(decoded, width, height, target_side, true, &mut square) {
        Some(n) => n,
        None => {
            return None;
        },
    };
    if side > PREVIEW_SIDE {
        proof {
            assert(side as int % 2 == 0);
            assert(scaled_side(side as int, side as int, PREVIEW_SIDE as int) == PREVIEW_SIDE);
            assert(!short_buffer(square@, side as int, side as int));
        }
        let mut preview: Vec<u8> = Vec::new();
        match scale_square(square.as_slice(), side, side, PREVIEW_SIDE, false, &mut preview) {
            Some(p) => Some(SquareFrame { rgb: square, side, preview, preview_side: p, seq }),
            None => {
                proof {
                    assert(false);
                }
                None
            },
        }
    } else {
        let copy = copy_bytes(&square);
        Some(SquareFrame { rgb: square, side, preview: copy, preview_side: side, seq })
    }
}

/// The frames of one camera session: the square side of its quality, and the number of the
/// last frame handed out (0 before the first).
pub struct CameraStream {
    pub target_side: u32,
    pub last_seq: u64,
}

/// What reading one decoded frame does to a stream: a frame that gives a square is handed out
/// under the next number; any other leaves the stream as it was.
pub open spec fn stream_step(
    before: CameraStream,
    out: Option<SquareFrame>,
    after: CameraStream,
) -> bool {
    &&& after.target_side == before.target_side
    &&& match out {
        Some(f) => {
            &&& f.seq == before.last_seq + 1
            &&& after.last_seq == f.seq
            &&& frame_shape(f, before.target_side as int)
        },
        None => after.last_seq == before.last_seq,
    }
}

impl CameraStream {
    /// A fresh stream for a quality.
    pub fn new(quality: OutputQuality) -> (r: CameraStream)
        ensures
            r.target_side == quality_side(quality),
            r.last_seq == 0,
    {
        CameraStream { target_side: quality.square_side(), last_seq: 0 }
    }

    /// Reads one decoded frame of `width` x `height` RGB pixels.
    pub fn next_frame(&mut self, decoded: &[u8], width: u32, height: u32) -> (r: Option<SquareFrame>)
        requires
            old(self).last_seq < u64::MAX,
        ensures
            stream_step(*old(self), r, *final(self)),
            r is None <==> frame_refused(
                decoded@,
                width as int,
                height as int,
                old(self).target_side as int,
            ),
            r matches Some(f) ==> frame_of(
                f,
                decoded@,
                width as int,
                height as int,
                old(self).target_side as int,
            ),
    {
        let r = square_frame(decoded, width, height, self.target_side, self.last_seq + 1);
        if let Some(f) = &r {
            self.last_seq = f.seq;
        }
        r
    }
}

proof fn lemma_stream_grows(states: Seq<CameraStream>, outs: Seq<Option<SquareFrame>>, j: int)
    requires
        states.len() == outs.len() + 1,
        0 <= j < states.len(),
        forall|i: int| 0 <= i < outs.len() ==> #[trigger] stream_step(states[i], outs[i], states[i + 1]),
    ensures
        states[j].target_side == states[0].target_side,
        forall|i: int| 0 <= i <= j ==> #[trigger] states[i].last_seq <= states[j].last_seq,
    decreases j,
{
    if j > 0 {
        let k = j - 1;
        lemma_stream_grows(states, outs, k);
        assert(stream_step(states[k], outs[k], states[k + 1]));
        assert(states[k + 1] == states[j]);
    }
}

/// The frames read one after the other from a fresh stream: every frame handed out has the
/// stream's square shape, and their numbers start at 1 and strictly increase.
pub proof fn lemma_stream_frames(states: Seq<CameraStream>, outs: Seq<Option<SquareFrame>>)
    requires
        states.len() == outs.len() + 1,
        states[0].last_seq == 0,
        forall|i: int| 0 <= i < outs.len() ==> #[trigger] stream_step(states[i], outs[i], states[i + 1]),
    ensures
        forall|i: int|
            0 <= i < outs.len() && #[trigger] outs[i] is Some ==> frame_shape(
                outs[i]->0,
                states[0].target_side as int,
            ) && outs[i]->0.seq >= 1,
        forall|i: int, j: int|
            0 <= i < j < outs.len() && #[trigger] outs[i] is Some && #[trigger] outs[j] is Some
                ==> outs[i]->0.seq < outs[j]->0.seq,
{
    assert forall|i: int| 0 <= i < outs.len() && #[trigger] outs[i] is Some implies frame_shape(
        outs[i]->0,
        states[0].target_side as int,
    ) && outs[i]->0.seq >= 1 by {
        lemma_stream_grows(states, outs, i);
        assert(stream_step(states[i], outs[i], states[i + 1]));
    }
    assert forall|i: int, j: int|
        0 <= i < j < outs.len() && #[trigger] outs[i] is Some && #[trigger] outs[j] is Some
            implies outs[i]->0.seq < outs[j]->0.seq by {
        lemma_stream_grows(states, outs, j);
        assert(stream_step(states[i], outs[i], states[i + 1]));
        assert(stream_step(states[j], outs[j], states[j + 1]));
        assert(states[i + 1].last_seq <= states[j].last_seq);
    }
}

} // verus!
