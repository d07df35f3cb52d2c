use vstd::prelude::*;
use crate::captions::strings;
use crate::export::{answer_file, media_name};
use crate::storage::{join_path, path_join};
use crate::text::{dec, push_char, push_dec, push_str};

verus! {

/// Frames per second of a recording.
pub const FPS: u32 = 30;

/// Where a finished answer was stored, relative to the project folder.
pub struct RecordedAnswer {
    pub square_rel: String,
    pub wav_rel: String,
}

/// The names a finished answer is stored under: `Q{position}.mp4` and `Q{position}.wav`.
pub fn recorded_answer(position: i64) -> (r: RecordedAnswer)
    ensures
        r.square_rel@ == media_name(position as int, ".mp4"@),
        r.wav_rel@ == media_name(position as int, ".wav"@),
{
    RecordedAnswer { square_rel: answer_file(position, ".mp4"), wav_rel: answer_file(position, ".wav") }
}

/// The files a recording is written to while it runs, video then audio; they replace
/// the answer's files once the recording is finished.
pub fn recording_paths(project_dir: &str, position: i64) -> (r: (String, String))
    ensures
        r.0@ == path_join(project_dir@, media_name(position as int, ".recording.mp4"@)),
        r.1@ == path_join(project_dir@, media_name(position as int, ".recording.wav"@)),
{
    let video = answer_file(position, ".recording.mp4");
    let audio = answer_file(position, ".recording.wav");
    (join_path(project_dir, video.as_str()), join_path(project_dir, audio.as_str()))
}

/// The ffmpeg arguments that encode raw RGB square frames from standard input to H.264.
pub open spec fn encoder_args_spec(path: Seq<char>, side: nat) -> Seq<Seq<char>> {
    seq![
        "-hide_banner"@,
        "-loglevel"@,
        "error"@,
        "-y"@,
        "-f"@,
        "rawvideo"@,
        "-pix_fmt"@,
        "rgb24"@,
        "-s"@,
        dec(side) + seq!['x'] + dec(side),
        "-r"@,
        dec(FPS as nat),
        "-i"@,
        "pipe:0"@,
        "-an"@,
        "-c:v"@,
        "libx264"@,
        "-preset"@,
        "ultrafast"@,
        "-crf"@,
        "18"@,
        "-pix_fmt"@,
        "yuv420p"@,
        path,
    ]
}

fn push_arg(args: &mut Vec<String>, s: String)
    ensures
        strings(final(args)@) == strings(old(args)@).push(s@),
{
    let ghost before = strings(args@);
    let ghost v = s@;
    args.push(s);
    assert(strings(args@) =~= before.push(v));
}

fn lit(t: &str) -> (r: String)
    ensures
        r@ == t@,
{
    let mut s = String::new();
    push_str(&mut s, t);
    s
}

pub fn encoder_args(path: &str, side: u32) -> (r: Vec<String>)
    ensures
        strings(r@) == encoder_args_spec(path@, side as nat),
{
    let mut size = String::new();
    push_dec(&mut size, side as u128);
    push_char(&mut size, 'x');
    push_dec(&mut size, side as u128);
    assert(size@ =~= dec(side as nat) + seq!['x'] + dec(side as nat));
    let mut rate = String::new();
    push_dec(&mut rate, FPS as u128);
    let mut a: Vec<String> = Vec::new();
    push_arg(&mut a, lit("-hide_banner"));
    push_arg(&mut a, lit("-loglevel"));
    push_arg(&mut a, lit("error"));
    push_arg(&mut a, lit("-y"));
    push_arg(&mut a, lit("-f"));
    push_arg(&mut a, lit("rawvideo"));
    push_arg(&mut a, lit("-pix_fmt"));
    push_arg(&mut a, lit("rgb24"));
    push_arg(&mut a, lit("-s"));
    push_arg(&mut a, size);
    push_arg(&mut a, lit("-r"));
    push_arg(&mut a, rate);
    push_arg(&mut a, lit("-i"));
    push_arg(&mut a, lit("pipe:0"));
    push_arg(&mut a, lit("-an"));
    push_arg(&mut a, lit("-c:v"));
    push_arg(&mut a, lit("libx264"));
    push_arg(&mut a, lit("-preset"));
    push_arg(&mut a, lit("ultrafast"));
    push_arg(&mut a, lit("-crf"));
    push_arg(&mut a, lit("18"));
    push_arg(&mut a, lit("-pix_fmt"));
    push_arg(&mut a, lit("yuv420p"));
    push_arg(&mut a, lit(path));
    assert(strings(a@) =~= encoder_args_spec(path@, side as nat));
    a
}

/// The encoder reads raw RGB24 frames (three bytes a pixel, red first: the layout of the
/// squares that `square_frame` makes) of `side` x `side` pixels at `FPS` frames a second from
/// its standard input, records no audio, and writes `path` last.
pub proof fn lemma_encoder_reads_rgb_squares(path: Seq<char>, side: nat)
    ensures
        ({
            let a = encoder_args_spec(path, side);
            &&& a.len() == 24
            &&& a[4] == "-f"@ && a[5] == "rawvideo"@
            &&& a[6] == "-pix_fmt"@ && a[7] == "rgb24"@
            &&& a[8] == "-s"@ && a[9] == dec(side) + seq!['x'] + dec(side)
            &&& a[10] == "-r"@ && a[11] == dec(30)
            &&& a[12] == "-i"@ && a[13] == "pipe:0"@
            &&& a[14] == "-an"@
            &&& a[23] == path
        }),
{
}

} // verus!
