use speakeasy::crop::PixelRect;
use speakeasy::export::{
    answer_file, captioned_args, CaptionInput, caption_name, crop_args, export_paths, parse_probe_width, playback_args,
    probe_args, speech_args,
};
use speakeasy::ffmpeg::missing_message;
use speakeasy::recorder::{encoder_args, recorded_answer, recording_paths, FPS};

#[test]
fn answer_file_names() {
    assert_eq!(answer_file(3, ".mp4"), "Q3.mp4");
    assert_eq!(answer_file(-12, ".wav"), "Q-12.wav");
    assert_eq!(answer_file(i64::MIN, ""), format!("Q{}", i64::MIN));
    let p = export_paths("/m/Talk", 7);
    assert_eq!(p.square, "/m/Talk/Q7.mp4");
    assert_eq!(p.wav, "/m/Talk/Q7.wav");
    assert_eq!(p.horizontal, "/m/Talk/Q7-H.mp4");
    assert_eq!(p.vertical, "/m/Talk/Q7-V.mp4");
    assert_eq!(caption_name(2, 11), "Q2-cap11.pam");
    let r = recorded_answer(4);
    assert_eq!(r.square_rel, "Q4.mp4");
    assert_eq!(r.wav_rel, "Q4.wav");
    let (v, a) = recording_paths("/m", 4);
    assert_eq!(v, "/m/Q4.recording.mp4");
    assert_eq!(a, "/m/Q4.recording.wav");
}

#[test]
fn ffmpeg_argument_lists() {
    let args = crop_args("in.mp4", "in.wav", PixelRect { x: 0, y: 2, w: 16, h: 8 }, "out.mp4");
    assert_eq!(args.len(), 26);
    assert_eq!(args[9], "crop=16:8:0:2");
    assert_eq!(args[5], "in.mp4");
    assert_eq!(args[25], "out.mp4");
    assert_eq!(probe_args("a.mp4").join(" "), "-v error -select_streams v:0 -show_entries stream=width -of csv=p=0 a.mp4");
    assert_eq!(speech_args("a.wav", "a.gemini.mp3").join(" "), "-hide_banner -loglevel error -y -i a.wav -ac 1 -ar 16000 -b:a 48k a.gemini.mp3");
    assert_eq!(playback_args("v.mp4", 720)[7], "scale=720:720");
    let enc = encoder_args("o.mp4", 1080);
    assert_eq!(enc[9], "1080x1080");
    assert_eq!(enc[11], FPS.to_string());
    assert_eq!(enc.last().unwrap(), "o.mp4");
}

#[test]
fn probe_width_parsing() {
    assert_eq!(parse_probe_width(true, "1440\n"), 1440);
    assert_eq!(parse_probe_width(true, " +720 "), 720);
    assert_eq!(parse_probe_width(true, "abc"), 1080);
    assert_eq!(parse_probe_width(true, ""), 1080);
    assert_eq!(parse_probe_width(true, "4294967296"), 1080);
    assert_eq!(parse_probe_width(true, "4294967295"), 4294967295);
    assert_eq!(parse_probe_width(false, "720"), 1080);
    assert_eq!(parse_probe_width(true, "-5"), 1080);
}

#[test]
fn missing_ffmpeg_message() {
    assert!(missing_message().starts_with("ffmpeg not found."));
}

#[test]
fn captioned_export_lays_each_caption_over_the_crop() {
    let crop = PixelRect { x: 0, y: 236, w: 1080, h: 608 };
    let caps = vec![
        CaptionInput { path: "/t/c0.pam".into(), start: "0.00".into(), end: "1.50".into() },
        CaptionInput { path: "/t/c1.pam".into(), start: "1.50".into(), end: "3.00".into() },
    ];
    let args = captioned_args("/m/Q1.mp4", "/m/Q1.wav", crop, &caps, 91, "/m/Q1-H.mp4");
    let expected: Vec<&str> = vec![
        "-hide_banner", "-loglevel", "error", "-y", "-i", "/m/Q1.mp4", "-i", "/m/Q1.wav",
        "-loop", "1", "-i", "/t/c0.pam", "-loop", "1", "-i", "/t/c1.pam",
        "-filter_complex",
        "[0:v]crop=1080:608:0:236[v0];[v0][2:v]overlay=x=(W-w)/2:y=H-h-91:enable='between(t,0.00,1.50)'[v1];[v1][3:v]overlay=x=(W-w)/2:y=H-h-91:enable='between(t,1.50,3.00)'[v]",
        "-map", "[v]", "-map", "1:a", "-c:v", "libx264", "-preset", "fast", "-crf", "18",
        "-pix_fmt", "yuv420p", "-c:a", "aac", "-b:a", "192k", "-movflags", "+faststart",
        "-shortest", "/m/Q1-H.mp4",
    ];
    assert_eq!(args, expected);
    let plain = captioned_args("/a.mp4", "/a.wav", crop, &Vec::new(), 91, "/o.mp4");
    assert_eq!(plain, crop_args("/a.mp4", "/a.wav", crop, "/o.mp4"));
}
