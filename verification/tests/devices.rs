use speakeasy::audio::ToI16;
use speakeasy::camera::{pick_preview_format, preview_requests, FormatInfo, FrameCodec};
use speakeasy::devices::{merge_mic_names, position_of, reselect};
use speakeasy::quality::OutputQuality;

#[test]
fn mic_names_are_listed_once_default_first() {
    let mics = merge_mic_names(
        Some("Built-in".into()),
        vec!["USB".into(), "Built-in".into(), "USB".into(), "Other".into()],
    );
    let names: Vec<&str> = mics.iter().map(|m| m.name.as_str()).collect();
    assert_eq!(names, vec!["Built-in", "USB", "Other"]);
    assert!(merge_mic_names(None, vec![]).is_empty());
}

#[test]
fn selection_survives_a_reload_when_possible() {
    let names = vec!["a".to_string(), "b".to_string()];
    assert_eq!(position_of(&names, "b"), Some(1));
    assert_eq!(reselect(Some("b"), &names), Some(1));
    assert_eq!(reselect(Some("z"), &names), Some(0));
    assert_eq!(reselect(None, &names), Some(0));
    assert_eq!(reselect(Some("b"), &vec![]), None);
}

#[test]
fn preview_format_prefers_the_target_frame() {
    let formats = vec![
        FormatInfo { width: 640, height: 480, frame_rate: 30, codec: FrameCodec::Mjpeg },
        FormatInfo { width: 1920, height: 1080, frame_rate: 30, codec: FrameCodec::Yuyv },
        FormatInfo { width: 1920, height: 1080, frame_rate: 30, codec: FrameCodec::Mjpeg },
        FormatInfo { width: 1920, height: 1080, frame_rate: 60, codec: FrameCodec::Mjpeg },
        FormatInfo { width: 1920, height: 1080, frame_rate: 15, codec: FrameCodec::Mjpeg },
        FormatInfo { width: 7680, height: 4320, frame_rate: 30, codec: FrameCodec::Mjpeg },
    ];
    assert_eq!(pick_preview_format(&formats, OutputQuality::P1080), Some(3));
    assert_eq!(pick_preview_format(&vec![], OutputQuality::P1080), None);
    let ties = vec![formats[2], formats[2]];
    assert_eq!(pick_preview_format(&ties, OutputQuality::P1080), Some(0));
    let r = preview_requests(OutputQuality::P720);
    assert_eq!(r[0], (1280, 720, FrameCodec::Mjpeg));
    assert_eq!(r[2], (1280, 720, FrameCodec::Yuyv));
    assert_eq!(r[3], (1920, 1080, FrameCodec::Mjpeg));
    assert_eq!(r.len(), 5);
}

#[test]
fn samples_convert_to_16_bit() {
    assert_eq!(5i16.to_i16(), 5);
    assert_eq!((-128i8).to_i16(), -32768);
    assert_eq!(127i8.to_i16(), 32512);
    assert_eq!(i32::MAX.to_i16(), 32767);
    assert_eq!((-1i32).to_i16(), -1);
    assert_eq!(0u8.to_i16(), -32768);
    assert_eq!(255u8.to_i16(), 32512);
    assert_eq!(0u16.to_i16(), -32768);
    assert_eq!(65535u16.to_i16(), 32767);
}
