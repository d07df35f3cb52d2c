use vstd::prelude::*;
use crate::captions::strings;
use crate::crop::{crop_filter, PixelRect};
use crate::storage::{join_path, path_join};
use crate::text::{
    chars_of, dec, dec_int, digit, push_char, push_dec, push_dec_i64, push_str, trim, trim_bounds,
};

verus! {

// ---------------------------------------------------------------------------
// File names
// ---------------------------------------------------------------------------

/// The name of a file of answer `position`: `Q{position}` followed by `suffix`.
pub open spec fn media_name(position: int, suffix: Seq<char>) -> Seq<char> {
    "Q"@ + dec_int(position) + suffix
}

pub fn answer_file(position: i64, suffix: &str) -> (r: String)
    ensures
        r@ == media_name(position as int, suffix@),
{
    let mut s = String::new();
    push_char(&mut s, 'Q');
    push_dec_i64(&mut s, position);
    push_str(&mut s, suffix);
    proof {
        reveal_strlit("Q");
        assert(s@ =~= media_name(position as int, suffix@));
    }
    s
}

/// The files of one answer: the square master, its audio, and the two exports.
pub struct ExportPaths {
    pub square: String,
    pub wav: String,
    pub horizontal: String,
    pub vertical: String,
}

pub fn export_paths(project_dir: &str, position: i64) -> (r: ExportPaths)
    ensures
        r.square@ == path_join(project_dir@, media_name(position as int, ".mp4"@)),
        r.wav@ == path_join(project_dir@, media_name(position as int, ".wav"@)),
        r.horizontal@ == path_join(project_dir@, media_name(position as int, "-H.mp4"@)),
        r.vertical@ == path_join(project_dir@, media_name(position as int, "-V.mp4"@)),
{
    let square = answer_file(position, ".mp4");
    let wav = answer_file(position, ".wav");
    let horizontal = answer_file(position, "-H.mp4");
    let vertical = answer_file(position, "-V.mp4");
    ExportPaths {
        square: join_path(project_dir, square.as_str()),
        wav: join_path(project_dir, wav.as_str()),
        horizontal: join_path(project_dir, horizontal.as_str()),
        vertical: join_path(project_dir, vertical.as_str()),
    }
}

/// The name of the image of caption `index` of answer `position`: `Q{position}-cap{index}.pam`.
pub fn caption_name(position: i64, index: usize) -> (r: String)
    ensures
        r@ == media_name(position as int, "-cap"@ + dec(index as nat) + ".pam"@),
{
    let mut suffix = String::new();
    push_str(&mut suffix, "-cap");
    push_dec(&mut suffix, index as u128);
    push_str(&mut suffix, ".pam");
    answer_file(position, suffix.as_str())
}

// ---------------------------------------------------------------------------
// ffmpeg and ffprobe arguments
// ---------------------------------------------------------------------------

fn push_arg(args: &mut Vec<String>, lit: &str)
    ensures
        strings(final(args)@) == strings(old(args)@).push(lit@),
{
    let mut s = String::new();
    push_str(&mut s, lit);
    let ghost before = strings(args@);
    args.push(s);
    assert(strings(args@) =~= before.push(lit@));
}

/// The ffmpeg arguments that crop the square master to one export, with its audio.
pub open spec fn crop_args_spec(
    video: Seq<char>,
    audio: Seq<char>,
    crop: PixelRect,
    out: Seq<char>,
) -> Seq<Seq<char>> {
    seq![
        "-hide_banner"@,
        "-loglevel"@,
        "error"@,
        "-y"@,
        "-i"@,
        video,
        "-i"@,
        audio,
        "-filter:v"@,
        crop_filter(crop),
        "-c:v"@,
        "libx264"@,
        "-preset"@,
        "fast"@,
        "-crf"@,
        "18"@,
        "-pix_fmt"@,
        "yuv420p"@,
        "-c:a"@,
        "aac"@,
        "-b:a"@,
        "192k"@,
        "-movflags"@,
        "+faststart"@,
        "-shortest"@,
        out,
    ]
}

pub fn crop_args(video: &str, audio: &str, crop: PixelRect, out: &str) -> (r: Vec<String>)
    ensures
        strings(r@) == crop_args_spec(video@, audio@, crop, out@),
{
    let mut a: Vec<String> = Vec::new();
    push_arg(&mut a, "-hide_banner");
    push_arg(&mut a, "-loglevel");
    push_arg(&mut a, "error");
    push_arg(&mut a, "-y");
    push_arg(&mut a, "-i");
    push_arg(&mut a, video);
    push_arg(&mut a, "-i");
    push_arg(&mut a, audio);
    push_arg(&mut a, "-filter:v");
    let filter = crop.ffmpeg_crop();
    push_arg(&mut a, filter.as_str());
    push_arg(&mut a, "-c:v");
    push_arg(&mut a, "libx264");
    push_arg(&mut a, "-preset");
    push_arg(&mut a, "fast");
    push_arg(&mut a, "-crf");
    push_arg(&mut a, "18");
    push_arg(&mut a, "-pix_fmt");
    push_arg(&mut a, "yuv420p");
    push_arg(&mut a, "-c:a");
    push_arg(&mut a, "aac");
    push_arg(&mut a, "-b:a");
    push_arg(&mut a, "192k");
    push_arg(&mut a, "-movflags");
    push_arg(&mut a, "+faststart");
    push_arg(&mut a, "-shortest");
    push_arg(&mut a, out);
    assert(strings(a@) =~= crop_args_spec(video@, audio@, crop, out@));
    a
}

/// The ffprobe arguments that print the width of a video's first stream.
pub open spec fn probe_args_spec(path: Seq<char>) -> Seq<Seq<char>> {
    seq![
        "-v"@,
        "error"@,
        "-select_streams"@,
        "v:0"@,
        "-show_entries"@,
        "stream=width"@,
        "-of"@,
        "csv=p=0"@,
        path,
    ]
}

pub fn probe_args(path: &str) -> (r: Vec<String>)
    ensures
        strings(r@) == probe_args_spec(path@),
{
    let mut a: Vec<String> = Vec::new();
    push_arg(&mut a, "-v");
    push_arg(&mut a, "error");
    push_arg(&mut a, "-select_streams");
    push_arg(&mut a, "v:0");
    push_arg(&mut a, "-show_entries");
    push_arg(&mut a, "stream=width");
    push_arg(&mut a, "-of");
    push_arg(&mut a, "csv=p=0");
    push_arg(&mut a, path);
    assert(strings(a@) =~= probe_args_spec(path@));
    a
}

/// The ffmpeg arguments that shrink an answer's audio to mono 16 kHz MP3 for Gemini.
pub open spec fn speech_args_spec(wav: Seq<char>, dest: Seq<char>) -> Seq<Seq<char>> {
    seq![
        "-hide_banner"@,
        "-loglevel"@,
        "error"@,
        "-y"@,
        "-i"@,
        wav,
        "-ac"@,
        "1"@,
        "-ar"@,
        "16000"@,
        "-b:a"@,
        "48k"@,
        dest,
    ]
}

pub fn speech_args(wav: &str, dest: &str) -> (r: Vec<String>)
    ensures
        strings(r@) == speech_args_spec(wav@, dest@),
{
    let mut a: Vec<String> = Vec::new();
    push_arg(&mut a, "-hide_banner");
    push_arg(&mut a, "-loglevel");
    push_arg(&mut a, "error");
    push_arg(&mut a, "-y");
    push_arg(&mut a, "-i");
    push_arg(&mut a, wav);
    push_arg(&mut a, "-ac");
    push_arg(&mut a, "1");
    push_arg(&mut a, "-ar");
    push_arg(&mut a, "16000");
    push_arg(&mut a, "-b:a");
    push_arg(&mut a, "48k");
    push_arg(&mut a, dest);
    assert(strings(a@) =~= speech_args_spec(wav@, dest@));
    a
}

/// The ffmpeg arguments that decode a video to raw RGB frames of the preview's size.
pub open spec fn playback_args_spec(video: Seq<char>, side: nat) -> Seq<Seq<char>> {
    seq![
        "-hide_banner"@,
        "-loglevel"@,
        "error"@,
        "-i"@,
        video,
        "-an"@,
        "-vf"@,
        "scale="@ + dec(side) + ":"@ + dec(side),
        "-f"@,
        "rawvideo"@,
        "-pix_fmt"@,
        "rgb24"@,
        "pipe:1"@,
    ]
}

pub fn playback_args(video: &str, side: u32) -> (r: Vec<String>)
    ensures
        strings(r@) == playback_args_spec(video@, side as nat),
{
    let mut a: Vec<String> = Vec::new();
    push_arg(&mut a, "-hide_banner");
    push_arg(&mut a, "-loglevel");
    push_arg(&mut a, "error");
    push_arg(&mut a, "-i");
    push_arg(&mut a, video);
    push_arg(&mut a, "-an");
    push_arg(&mut a, "-vf");
    let mut scale = String::new();
    push_str(&mut scale, "scale=");
    push_dec(&mut scale, side as u128);
    push_str(&mut scale, ":");
    push_dec(&mut scale, side as u128);
    push_arg(&mut a, scale.as_str());
    push_arg(&mut a, "-f");
    push_arg(&mut a, "rawvideo");
    push_arg(&mut a, "-pix_fmt");
    push_arg(&mut a, "rgb24");
    push_arg(&mut a, "pipe:1");
    assert(strings(a@) =~= playback_args_spec(video@, side as nat));
    a
}

// ---------------------------------------------------------------------------
// ffprobe output
// ---------------------------------------------------------------------------

pub open spec fn is_digit(c: char) -> bool {
    '0' <= c <= '9'
}

/// The value of a numeral of decimal digits.
pub open spec fn digits_value(s: Seq<char>) -> int
    decreases s.len(),
{
    if s.len() == 0 {
        0
    } else {
        digits_value(s.drop_last()) * 10 + (s.last() as int - 48)
    }
}

/// Whether `d` is a non-empty run of decimal digits.
pub open spec fn all_digits(d: Seq<char>) -> bool {
    d.len() > 0 && forall|k: int| 0 <= k < d.len() ==> is_digit(#[trigger] d[k])
}

/// `s` without a leading `+`.
pub open spec fn unsigned_part(s: Seq<char>) -> Seq<char> {
    if s.len() > 0 && s[0] == '+' {
        s.drop_first()
    } else {
        s
    }
}

/// `u32::from_str`: an optional `+` and at least one decimal digit, of a value that fits.
pub open spec fn parse_u32(s: Seq<char>) -> Option<u32> {
    let d = unsigned_part(s);
    if all_digits(d) && digits_value(d) <= u32::MAX {
        Some(digits_value(d) as u32)
    } else {
        None
    }
}

proof fn lemma_digits_grow(d: Seq<char>, i: int, j: int)
    requires
        0 <= i <= j <= d.len(),
        forall|k: int| 0 <= k < d.len() ==> is_digit(#[trigger] d[k]),
    ensures
        0 <= digits_value(d.take(i)) <= digits_value(d.take(j)),
    decreases j - i,
{
    if i < j {
        lemma_digits_grow(d, i, j - 1);
        assert(d.take(j).drop_last() =~= d.take(j - 1));
        assert(is_digit(d[j - 1]));
    } else {
        lemma_digits_nonneg(d.take(i));
    }
}

proof fn lemma_digits_nonneg(d: Seq<char>)
    requires
        forall|k: int| 0 <= k < d.len() ==> is_digit(#[trigger] d[k]),
    ensures
        digits_value(d) >= 0,
    decreases d.len(),
{
    if d.len() > 0 {
        assert forall|k: int| 0 <= k < d.drop_last().len() implies is_digit(
            #[trigger] d.drop_last()[k],
        ) by {
            assert(d.drop_last()[k] == d[k]);
        }
        lemma_digits_nonneg(d.drop_last());
    }
}

/// Parses a `u32` written in decimal, as `str::parse::<u32>` does.
pub fn parse_u32_str(v: &Vec<char>, from: usize, to: usize) -> (r: Option<u32>)
    requires
        from <= to <= v@.len(),
    ensures
        r == parse_u32(v@.subrange(from as int, to as int)),
{
    let ghost s = v@.subrange(from as int, to as int);
    let mut start = from;
    if from < to && v[from] == '+' {
        start = from + 1;
    }
    let ghost d = v@.subrange(start as int, to as int);
    assert(d =~= unsigned_part(s));
    if start == to {
        return None;
    }
    let mut value: u64 = 0;
    let mut i = start;
    let mut too_big = false;
    assert(d.take(0) =~= Seq::<char>::empty());
    while i < to
        invariant
            from <= start < to <= v@.len(),
            start <= i <= to,
            d == v@.subrange(start as int, to as int),
            s == v@.subrange(from as int, to as int),
            d == unsigned_part(s),
            forall|k: int| 0 <= k < i - start ==> is_digit(#[trigger] d[k]),
            !too_big ==> value == digits_value(d.take(i - start)) && value <= u32::MAX,
            too_big ==> digits_value(d.take(i - start)) > u32::MAX || exists|j: int|
                0 <= j <= i - start && #[trigger] digits_value(d.take(j)) > u32::MAX,
        decreases to - i,
    {
        let c = v[i];
        if c < '0' || c > '9' {
            assert(!is_digit(d[i - start]));
            return None;
        }
        assert(d.take(i - start + 1).drop_last() =~= d.take(i - start));
        assert(d.take(i - start + 1).last() == c);
        if !too_big {
            let next: u64 = value * 10 + (c as u64 - 48);
            if next > 0xffff_ffff {
                too_big = true;
            } else {
                value = next;
            }
        }
        i = i + 1;
    }
    assert(d.take(d.len() as int) =~= d);
    if too_big {
        proof {
            let j = choose|j: int| 0 <= j <= d.len() && #[trigger] digits_value(d.take(j)) > u32::MAX;
            if digits_value(d.take(d.len() as int)) <= u32::MAX {
                lemma_digits_grow(d, j, d.len() as int);
            }
        }
        None
    } else {
        Some(value as u32)
    }
}

/// The side of a square master from what ffprobe printed: its width, or 1080 when ffprobe
/// failed or printed no number.
pub open spec fn probed_side(success: bool, stdout: Seq<char>) -> u32 {
    if !success {
        1080
    } else {
        match parse_u32(trim(stdout)) {
            Some(w) => w,
            None => 1080,
        }
    }
}

pub fn parse_probe_width(success: bool, stdout: &str) -> (r: u32)
    ensures
        r == probed_side(success, stdout@),
{
    if !success {
        return 1080;
    }
    let v = chars_of(stdout);
    let (lo, hi) = trim_bounds(&v, 0, v.len(), false);
    assert(v@.subrange(0, v@.len() as int) =~= v@);
    match parse_u32_str(&v, lo, hi) {
        Some(w) => w,
        None => 1080,
    }
}

// ---------------------------------------------------------------------------
// Captioned export
// ---------------------------------------------------------------------------

/// A caption image to lay over the landscape export, with the times (in seconds, written
/// with two decimals) between which it shows.
pub struct CaptionInput {
    pub path: String,
    pub start: String,
    pub end: String,
}

/// The filter step that lays caption `index` of `count` over the video stream: centered,
/// `margin` pixels above the bottom, shown between its times. The last step yields `[v]`.
pub open spec fn overlay_step(index: nat, count: nat, margin: int, start: Seq<char>, end: Seq<char>) -> Seq<char> {
    ";[v"@ + dec(index) + "]["@ + dec(index + 2) + ":v]overlay=x=(W-w)/2:y=H-h-"@ + dec_int(margin)
        + ":enable='between(t,"@ + start + ","@ + end + ")'["@ + (if index + 1 == count {
        "v"@
    } else {
        "v"@ + dec(index + 1)
    }) + "]"@
}

/// The overlay steps of the first `times.len()` captions out of `count`.
pub open spec fn overlay_steps(times: Seq<(Seq<char>, Seq<char>)>, count: nat, margin: int) -> Seq<char>
    decreases times.len(),
{
    if times.len() == 0 {
        seq![]
    } else {
        overlay_steps(times.drop_last(), count, margin) + overlay_step(
            (times.len() - 1) as nat,
            count,
            margin,
            times.last().0,
            times.last().1,
        )
    }
}

/// The start and end times of some captions.
pub open spec fn caption_times(c: Seq<CaptionInput>) -> Seq<(Seq<char>, Seq<char>)> {
    c.map_values(|o: CaptionInput| (o.start@, o.end@))
}

/// The filter graph of a captioned export: the crop, then one overlay per caption.
pub open spec fn caption_graph(crop: PixelRect, captions: Seq<CaptionInput>, margin: int) -> Seq<char> {
    "[0:v]"@ + crop_filter(crop) + "[v0]"@ + overlay_steps(
        caption_times(captions),
        captions.len(),
        margin,
    )
}

/// The inputs of the caption images: each looped.
pub open spec fn caption_inputs(c: Seq<CaptionInput>) -> Seq<Seq<char>>
    decreases c.len(),
{
    if c.len() == 0 {
        seq![]
    } else {
        caption_inputs(c.drop_last()) + seq!["-loop"@, "1"@, "-i"@, c.last().path@]
    }
}

/// The ffmpeg arguments of a captioned landscape export. Without captions they are those
/// of a plain crop.
pub open spec fn captioned_args_spec(
    video: Seq<char>,
    audio: Seq<char>,
    crop: PixelRect,
    captions: Seq<CaptionInput>,
    margin: int,
    out: Seq<char>,
) -> Seq<Seq<char>> {
    if captions.len() == 0 {
        crop_args_spec(video, audio, crop, out)
    } else {
        seq!["-hide_banner"@, "-loglevel"@, "error"@, "-y"@, "-i"@, video, "-i"@, audio]
            + caption_inputs(captions) + seq![
            "-filter_complex"@,
            caption_graph(crop, captions, margin),
            "-map"@,
            "[v]"@,
            "-map"@,
            "1:a"@,
            "-c:v"@,
            "libx264"@,
            "-preset"@,
            "fast"@,
            "-crf"@,
            "18"@,
            "-pix_fmt"@,
            "yuv420p"@,
            "-c:a"@,
            "aac"@,
            "-b:a"@,
            "192k"@,
            "-movflags"@,
            "+faststart"@,
            "-shortest"@,
            out,
        ]
    }
}

fn push_overlay_step(graph: &mut String, index: usize, count: usize, margin: i32, start: &str, end: &str)
    ensures
        final(graph)@ == old(graph)@ + overlay_step(index as nat, count as nat, margin as int, start@, end@),
{
    push_str(graph, ";[v");
    push_dec(graph, index as u128);
    push_str(graph, "][");
    push_dec(graph, index as u128 + 2);
    push_str(graph, ":v]overlay=x=(W-w)/2:y=H-h-");
    push_dec_i64(graph, margin as i64);
    push_str(graph, ":enable='between(t,");
    push_str(graph, start);
    push_str(graph, ",");
    push_str(graph, end);
    push_str(graph, ")'[");
    if index as u128 + 1 == count as u128 {
        push_str(graph, "v");
    } else {
        push_str(graph, "v");
        push_dec(graph, index as u128 + 1);
    }
    push_str(graph, "]");
    proof {
        let step = overlay_step(index as nat, count as nat, margin as int, start@, end@);
        assert(final(graph)@ =~= old(graph)@ + step);
    }
}

pub fn captioned_args(
    video: &str,
    audio: &str,
    crop: PixelRect,
    captions: &Vec<CaptionInput>,
    margin: i32,
    out: &str,
) -> (r: Vec<String>)
    ensures
        strings(r@) == captioned_args_spec(video@, audio@, crop, captions@, margin as int, out@),
{
    if captions.len() == 0 {
        return crop_args(video, audio, crop, out);
    }
    let mut a: Vec<String> = Vec::new();
    push_arg(&mut a, "-hide_banner");
    push_arg(&mut a, "-loglevel");
    push_arg(&mut a, "error");
    push_arg(&mut a, "-y");
    push_arg(&mut a, "-i");
    push_arg(&mut a, video);
    push_arg(&mut a, "-i");
    push_arg(&mut a, audio);
    let ghost head = strings(a@);
    let n = captions.len();
    let mut i: usize = 0;
    assert(captions@.take(0) =~= Seq::<CaptionInput>::empty());
    assert(head + caption_inputs(captions@.take(0)) =~= head);
    while i < n
        invariant
            n == captions@.len(),
            0 <= i <= n,
            strings(a@) == head + caption_inputs(captions@.take(i as int)),
        decreases n - i,
    {
        let ghost before = strings(a@);
        assert(captions@.take(i + 1).drop_last() =~= captions@.take(i as int));
        push_arg(&mut a, "-loop");
        push_arg(&mut a, "1");
        push_arg(&mut a, "-i");
        push_arg(&mut a, captions[i].path.as_str());
        assert(strings(a@) =~= head + caption_inputs(captions@.take(i + 1)));
        i = i + 1;
    }
    assert(captions@.take(n as int) =~= captions@);
    let mut graph = String::new();
    push_str(&mut graph, "[0:v]");
    let filter = crop.ffmpeg_crop();
    push_str(&mut graph, filter.as_str());
    push_str(&mut graph, "[v0]");
    let ghost lead = graph@;
    let ghost times = caption_times(captions@);
    let mut j: usize = 0;
    assert(times.take(0) =~= Seq::<(Seq<char>, Seq<char>)>::empty());
    assert(lead + overlay_steps(times.take(0), n as nat, margin as int) =~= lead);
    while j < n
        invariant
            n == captions@.len(),
            times == caption_times(captions@),
            0 <= j <= n,
            graph@ == lead + overlay_steps(times.take(j as int), n as nat, margin as int),
        decreases n - j,
    {
        let ghost before = graph@;
        assert(times.take(j + 1).drop_last() =~= times.take(j as int));
        assert(times.take(j + 1).last() == (captions@[j as int].start@, captions@[j as int].end@));
        push_overlay_step(&mut graph, j, n, margin, captions[j].start.as_str(), captions[j].end.as_str());
        assert(graph@ =~= lead + overlay_steps(times.take(j + 1), n as nat, margin as int));
        j = j + 1;
    }
    assert(times.take(n as int) =~= times);
    assert(graph@ =~= caption_graph(crop, captions@, margin as int));
    let ghost mid = strings(a@);
    push_arg(&mut a, "-filter_complex");
    let ghost g = graph@;
    let ghost b1 = strings(a@);
    a.push(graph);
    assert(strings(a@) =~= b1.push(g));
    push_arg(&mut a, "-map");
    push_arg(&mut a, "[v]");
    push_arg(&mut a, "-map");
    push_arg(&mut a, "1:a");
    push_arg(&mut a, "-c:v");
    push_arg(&mut a, "libx264");
    push_arg(&mut a, "-preset");
    push_arg(&mut a, "fast");
    push_arg(&mut a, "-crf");
    push_arg(&mut a, "18");
    push_arg(&mut a, "-pix_fmt");
    push_arg(&mut a, "yuv420p");
    push_arg(&mut a, "-c:a");
    push_arg(&mut a, "aac");
    push_arg(&mut a, "-b:a");
    push_arg(&mut a, "192k");
    push_arg(&mut a, "-movflags");
    push_arg(&mut a, "+faststart");
    push_arg(&mut a, "-shortest");
    push_arg(&mut a, out);
    assert(strings(a@) =~= captioned_args_spec(video@, audio@, crop, captions@, margin as int, out@));
    a
}

// ---------------------------------------------------------------------------
// What the command lines do
// ---------------------------------------------------------------------------

/// A crop export reads two inputs, the square master and then the answer's recorded audio,
/// crops the picture to the rectangle, encodes the audio as AAC, and writes `out` as its last
/// argument.
pub proof fn lemma_crop_args_inputs(video: Seq<char>, audio: Seq<char>, crop: PixelRect, out: Seq<char>)
    ensures
        ({
            let a = crop_args_spec(video, audio, crop, out);
            &&& a.len() == 26
            &&& a[4] == "-i"@ && a[5] == video
            &&& a[6] == "-i"@ && a[7] == audio
            &&& forall|k: int| 0 <= k < 4 ==> a[k] != "-i"@
            &&& a[8] == "-filter:v"@
            &&& a[9] == "crop="@ + dec(crop.w as nat) + ":"@ + dec(crop.h as nat) + ":"@ + dec(
                crop.x as nat,
            ) + ":"@ + dec(crop.y as nat)
            &&& a[18] == "-c:a"@ && a[19] == "aac"@
            &&& a[25] == out
        }),
{
    reveal_strlit("-i");
    reveal_strlit("-hide_banner");
    reveal_strlit("-loglevel");
    reveal_strlit("error");
    reveal_strlit("-y");
    let a = crop_args_spec(video, audio, crop, out);
    assert(a[0].len() == 12 && a[1].len() == 9 && a[2].len() == 5 && a[3].len() == 2);
    assert(a[3][1] != "-i"@[1]);
}
/// Arguments `8 + 4 * i` to `11 + 4 * i` read caption `i` as the looped input
/// `-loop 1 -i {path}`.
pub open spec fn reads_caption(a: Seq<Seq<char>>, captions: Seq<CaptionInput>, i: int) -> bool {
    &&& a[8 + 4 * i] == "-loop"@
    &&& a[9 + 4 * i] == "1"@
    &&& a[10 + 4 * i] == "-i"@
    &&& a[11 + 4 * i] == captions[i].path@
}

/// A captioned export reads the square master, then the answer's audio, then each caption
/// image (looped) in order; it lays the captions over the cropped picture and keeps the audio
/// of the second input; `out` is written last.
pub proof fn lemma_captioned_args_inputs(
    video: Seq<char>,
    audio: Seq<char>,
    crop: PixelRect,
    captions: Seq<CaptionInput>,
    margin: int,
    out: Seq<char>,
)
    requires
        captions.len() > 0,
    ensures
        captioned_args_spec(video, audio, crop, captions, margin, out).len() == 8 + 4 * captions.len()
            + 22,
        captioned_args_spec(video, audio, crop, captions, margin, out)[4] == "-i"@,
        captioned_args_spec(video, audio, crop, captions, margin, out)[5] == video,
        captioned_args_spec(video, audio, crop, captions, margin, out)[6] == "-i"@,
        captioned_args_spec(video, audio, crop, captions, margin, out)[7] == audio,
        forall|i: int|
            0 <= i < captions.len() ==> #[trigger] reads_caption(
                captioned_args_spec(video, audio, crop, captions, margin, out),
                captions,
                i,
            ),
        ({
            let a = captioned_args_spec(video, audio, crop, captions, margin, out);
            let k = 8 + 4 * (captions.len() as int);
            &&& a[k] == "-filter_complex"@
            &&& a[k + 2] == "-map"@ && a[k + 3] == "[v]"@
            &&& a[k + 4] == "-map"@ && a[k + 5] == "1:a"@
            &&& a[k + 21] == out
        }),
{
    lemma_caption_inputs(captions);
    let a = captioned_args_spec(video, audio, crop, captions, margin, out);
    let head = seq!["-hide_banner"@, "-loglevel"@, "error"@, "-y"@, "-i"@, video, "-i"@, audio];
    let ins = caption_inputs(captions);
    let tail = seq![
        "-filter_complex"@,
        caption_graph(crop, captions, margin),
        "-map"@,
        "[v]"@,
        "-map"@,
        "1:a"@,
        "-c:v"@,
        "libx264"@,
        "-preset"@,
        "fast"@,
        "-crf"@,
        "18"@,
        "-pix_fmt"@,
        "yuv420p"@,
        "-c:a"@,
        "aac"@,
        "-b:a"@,
        "192k"@,
        "-movflags"@,
        "+faststart"@,
        "-shortest"@,
        out,
    ];
    assert(a == head + ins + tail);
    let k = 8 + 4 * (captions.len() as int);
    assert((head + ins).len() == k);
    assert forall|i: int| 0 <= i < captions.len() implies #[trigger] reads_caption(a, captions, i) by {
        assert(caption_input_at(captions, i));
        assert(4 * i + 3 < ins.len());
        assert(a[8 + 4 * i] == ins[4 * i]);
        assert(a[9 + 4 * i] == ins[4 * i + 1]);
        assert(a[10 + 4 * i] == ins[4 * i + 2]);
        assert(a[11 + 4 * i] == ins[4 * i + 3]);
    }
    assert(a.len() == k + 22);
    assert((head + ins)[4] == head[4] && (head + ins)[5] == head[5] && (head + ins)[6] == head[6] && (
    head + ins)[7] == head[7]);
    assert(a[4] == head[4] && a[5] == video && a[6] == head[6] && a[7] == audio);
    assert(a[k] == tail[0] && a[k + 2] == tail[2] && a[k + 3] == tail[3] && a[k + 4] == tail[4]
        && a[k + 5] == tail[5] && a[k + 21] == tail[21]);
    assert(a[k] == "-filter_complex"@);
    assert(a[k + 2] == "-map"@ && a[k + 3] == "[v]"@);
    assert(a[k + 4] == "-map"@ && a[k + 5] == "1:a"@);
    assert(a[k + 21] == out);
}

/// Caption `i` is read as the looped input `-loop 1 -i {path}` in the caption inputs.
pub open spec fn caption_input_at(c: Seq<CaptionInput>, i: int) -> bool {
    let ins = caption_inputs(c);
    &&& ins[4 * i] == "-loop"@
    &&& ins[4 * i + 1] == "1"@
    &&& ins[4 * i + 2] == "-i"@
    &&& ins[4 * i + 3] == c[i].path@
}

proof fn lemma_caption_inputs(c: Seq<CaptionInput>)
    ensures
        caption_inputs(c).len() == 4 * c.len(),
        forall|i: int| 0 <= i < c.len() ==> #[trigger] caption_input_at(c, i),
    decreases c.len(),
{
    if c.len() > 0 {
        let d = c.drop_last();
        lemma_caption_inputs(d);
        let p = caption_inputs(d);
        let last = seq!["-loop"@, "1"@, "-i"@, c.last().path@];
        let q = caption_inputs(c);
        assert(q == p + last);
        assert forall|i: int| 0 <= i < c.len() implies #[trigger] caption_input_at(c, i) by {
            if i < c.len() - 1 {
                assert(caption_input_at(d, i));
                assert(d[i] == c[i]);
                assert(4 * i + 3 < p.len());
                assert(q[4 * i] == p[4 * i] && q[4 * i + 1] == p[4 * i + 1] && q[4 * i + 2] == p[4 * i
                    + 2] && q[4 * i + 3] == p[4 * i + 3]);
            } else {
                assert(4 * i == p.len());
                assert(q[4 * i] == last[0] && q[4 * i + 1] == last[1] && q[4 * i + 2] == last[2] && q[4
                    * i + 3] == last[3]);
            }
        }
    }
}

/// The playback command reads the one video, drops its audio, scales the picture to a
/// `side` x `side` square and writes raw RGB24 frames to its standard output.
pub proof fn lemma_playback_args(video: Seq<char>, side: nat)
    ensures
        ({
            let a = playback_args_spec(video, side);
            &&& a.len() == 13
            &&& a[3] == "-i"@ && a[4] == video
            &&& a[5] == "-an"@
            &&& a[6] == "-vf"@ && a[7] == "scale="@ + dec(side) + ":"@ + dec(side)
            &&& a[8] == "-f"@ && a[9] == "rawvideo"@
            &&& a[10] == "-pix_fmt"@ && a[11] == "rgb24"@
            &&& a[12] == "pipe:1"@
        }),
{
}

/// The speech command reads the answer's audio and writes `dest` as mono 16 kHz audio.
pub proof fn lemma_speech_args(wav: Seq<char>, dest: Seq<char>)
    ensures
        ({
            let a = speech_args_spec(wav, dest);
            &&& a.len() == 13
            &&& a[4] == "-i"@ && a[5] == wav
            &&& a[6] == "-ac"@ && a[7] == "1"@
            &&& a[8] == "-ar"@ && a[9] == "16000"@
            &&& a[12] == dest
        }),
{
}

/// The probe command asks for the width of the first video stream of `path`, as a bare number.
pub proof fn lemma_probe_args(path: Seq<char>)
    ensures
        ({
            let a = probe_args_spec(path);
            &&& a.len() == 9
            &&& a[2] == "-select_streams"@ && a[3] == "v:0"@
            &&& a[4] == "-show_entries"@ && a[5] == "stream=width"@
            &&& a[6] == "-of"@ && a[7] == "csv=p=0"@
            &&& a[8] == path
        }),
{
}

proof fn lemma_dec_digits(n: nat)
    ensures
        dec(n).len() > 0,
        forall|k: int| 0 <= k < dec(n).len() ==> is_digit(#[trigger] dec(n)[k]),
        digits_value(dec(n)) == n,
    decreases n,
{
    assert(digit(n % 10) as int == 48 + n % 10);
    if n < 10 {
        assert(dec(n).drop_last() =~= Seq::<char>::empty());
        assert(digits_value(Seq::<char>::empty()) == 0);
        assert(digits_value(dec(n)) == digits_value(dec(n).drop_last()) * 10 + (dec(n).last() as int
            - 48));
    } else {
        lemma_dec_digits(n / 10);
        let d = dec(n);
        assert(d.drop_last() =~= dec(n / 10));
        assert(d.last() == digit(n % 10));
        assert(digits_value(d) == digits_value(dec(n / 10)) * 10 + (d.last() as int - 48));
        assert((n / 10) * 10 + n % 10 == n);
        assert forall|k: int| 0 <= k < d.len() implies is_digit(#[trigger] d[k]) by {
            if k < d.len() - 1 {
                assert(d[k] == dec(n / 10)[k]);
            }
        }
    }
}

/// ffprobe's answer is read back as the width it prints: the decimal numeral of a width,
/// followed by the newline ffprobe ends its line with, gives that width; a failed run gives
/// the default of 1080.
pub proof fn lemma_probe_reads_width(w: u32, stdout: Seq<char>)
    ensures
        probed_side(true, dec(w as nat) + seq!['\n']) == w,
        probed_side(false, stdout) == 1080,
{
    let d = dec(w as nat);
    lemma_dec_digits(w as nat);
    let t = d + seq!['\n'];
    assert(is_digit(d[0]) && is_digit(d.last()));
    assert(t[0] == d[0]);
    assert(t.drop_last() =~= d);
    reveal_with_fuel(crate::text::trim_end_by, 2);
    assert(trim(t) == d);
    assert(unsigned_part(d) == d);
}

} // verus!
