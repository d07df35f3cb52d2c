use speakeasy::camera::{square_frame, CameraStream};
use speakeasy::quality::OutputQuality;
use speakeasy::quality::PREVIEW_SIDE;
use speakeasy::crop::{center_square_rgb, crops_for_square, even, scale_square, PixelRect};

#[test]
fn horizontal_is_16_by_9() {
    let crops = crops_for_square(1080);
    let ratio = f64::from(crops.horizontal.w) / f64::from(crops.horizontal.h);
    assert!((ratio - 16.0 / 9.0).abs() < 0.02);
    assert_eq!(crops.horizontal.w % 2, 0);
    assert_eq!(crops.horizontal.h % 2, 0);
    assert!(crops.horizontal.y + crops.horizontal.h <= crops.side);
}

#[test]
fn vertical_is_9_by_16() {
    let crops = crops_for_square(1080);
    let ratio = f64::from(crops.vertical.h) / f64::from(crops.vertical.w);
    assert!((ratio - 16.0 / 9.0).abs() < 0.02);
    assert_eq!(crops.vertical.w % 2, 0);
    assert_eq!(crops.vertical.h % 2, 0);
    assert!(crops.vertical.x + crops.vertical.w <= crops.side);
}

#[test]
fn center_square_crops_landscape() {
    let width = 40;
    let height = 24;
    let rgb = vec![0_u8; (width * height * 3) as usize];
    let (square, side) = center_square_rgb(&rgb, width, height).unwrap();
    assert_eq!(side, 24);
    assert_eq!(square.len(), 24 * 24 * 3);
}

#[test]
fn scale_square_mirrors_and_resizes() {
    let width = 40;
    let height = 24;
    let mut rgb = vec![0_u8; (width * height * 3) as usize];
    rgb[8 * 3] = 255;
    let mut out = Vec::new();
    let side = scale_square(&rgb, width, height, 16, true, &mut out).unwrap();
    assert_eq!(side, 16);
    assert_eq!(out.len(), 16 * 16 * 3);
    assert_eq!(out[15 * 3], 255);
}

#[test]
fn crops_for_1080_exact_values() {
    let crops = crops_for_square(1080);
    assert_eq!(crops.side, 1080);
    assert_eq!(crops.horizontal, PixelRect { x: 0, y: 236, w: 1080, h: 608 });
    assert_eq!(crops.vertical, PixelRect { x: 236, y: 0, w: 608, h: 1080 });
}

#[test]
fn crops_for_tiny_and_odd_sides() {
    let small = crops_for_square(3);
    assert_eq!(small.side, 16);
    assert_eq!(small.horizontal.h, 8);
    assert_eq!(small.horizontal.y, 4);
    let odd = crops_for_square(721);
    assert_eq!(odd.side, 720);
    assert_eq!(odd.horizontal.h, 404);
    assert_eq!(odd.horizontal.y, 158);
}

#[test]
fn crops_stay_inside_and_centered_for_many_sides() {
    for side in [0u32, 16, 17, 100, 720, 1080, 1440, 2160, 4001, u32::MAX] {
        let c = crops_for_square(side);
        assert!(c.horizontal.y + c.horizontal.h <= c.side);
        assert_eq!(c.vertical.x, c.horizontal.y);
        assert_eq!(c.vertical.w, c.horizontal.h);
        let before = c.horizontal.y as i64;
        let after = c.side as i64 - c.horizontal.h as i64 - before;
        assert!(after - before >= 0 && after - before <= 2);
        let skew = 16 * c.horizontal.h as i64 - 9 * c.side as i64;
        assert!(skew.abs() <= 24);
    }
}

#[test]
fn ffmpeg_crop_filter_text() {
    let rect = PixelRect { x: 0, y: 236, w: 1080, h: 608 };
    assert_eq!(rect.ffmpeg_crop(), "crop=1080:608:0:236");
}

#[test]
fn even_rounds_down() {
    assert_eq!(even(7), 6);
    assert_eq!(even(8), 8);
    assert_eq!(even(0), 0);
    assert_eq!(even(u32::MAX), u32::MAX - 1);
}

#[test]
fn center_square_refuses_bad_input() {
    assert!(center_square_rgb(&[0u8; 10], 0, 24).is_none());
    assert!(center_square_rgb(&[0u8; 10], 40, 24).is_none());
    let small = vec![0u8; 15 * 15 * 3];
    assert!(center_square_rgb(&small, 15, 15).is_none());
}

#[test]
fn center_square_copies_the_middle() {
    let width = 20u32;
    let height = 16u32;
    let mut rgb = vec![0u8; (width * height * 3) as usize];
    for (i, b) in rgb.iter_mut().enumerate() {
        *b = (i % 251) as u8;
    }
    let (square, side) = center_square_rgb(&rgb, width, height).unwrap();
    assert_eq!(side, 16);
    for y in 0..16usize {
        for x in 0..16usize {
            for c in 0..3usize {
                let src = (y * 20 + 2 + x) * 3 + c;
                assert_eq!(square[(y * 16 + x) * 3 + c], rgb[src]);
            }
        }
    }
}

#[test]
fn scale_square_without_mirror_keeps_order_and_leaves_out_alone_on_failure() {
    let width = 32u32;
    let height = 32u32;
    let mut rgb = vec![0u8; (width * height * 3) as usize];
    rgb[0] = 9;
    let mut out = vec![1u8, 2, 3];
    let side = scale_square(&rgb, width, height, 16, false, &mut out).unwrap();
    assert_eq!(side, 16);
    assert_eq!(out[0], 9);
    let mut untouched = vec![7u8; 4];
    assert!(scale_square(&rgb, width, height, 15, false, &mut untouched).is_none());
    assert_eq!(untouched, vec![7u8; 4]);
    assert!(scale_square(&rgb[..10], width, height, 16, false, &mut untouched).is_none());
    assert_eq!(untouched, vec![7u8; 4]);
}

#[test]
fn camera_frames_become_a_mirrored_square_and_a_preview() {
    // 40 x 24: a 24-pixel square; no smaller preview is made.
    let mut rgb = Vec::new();
    for y in 0..24u32 {
        for x in 0..40u32 {
            rgb.extend_from_slice(&[x as u8, y as u8, 7]);
        }
    }
    let f = square_frame(&rgb, 40, 24, 1080, 5).unwrap();
    assert_eq!(f.side, 24);
    assert_eq!(f.seq, 5);
    assert_eq!(f.preview_side, 24);
    assert_eq!(f.preview, f.rgb);
    // mirrored: the first output pixel comes from the right edge of the centered square.
    assert_eq!(&f.rgb[0..3], &[8 + 23, 0, 7]);
    assert!(square_frame(&rgb, 40, 24, 10, 1).is_none());
    assert!(square_frame(&rgb[..10], 40, 24, 1080, 1).is_none());
    // a large frame gets a preview of PREVIEW_SIDE pixels.
    let big = vec![9u8; 1000 * 800 * 3];
    let f = square_frame(&big, 1000, 800, 1080, 1).unwrap();
    assert_eq!(f.side, 800);
    assert_eq!(f.preview_side, PREVIEW_SIDE);
    assert_eq!(f.preview.len(), (PREVIEW_SIDE * PREVIEW_SIDE * 3) as usize);
}

#[test]
fn a_camera_stream_numbers_its_frames_from_one() {
    let mut stream = CameraStream::new(OutputQuality::P720);
    assert_eq!(stream.target_side, 720);
    let frame = vec![5u8; 40 * 24 * 3];
    let a = stream.next_frame(&frame, 40, 24).unwrap();
    assert!(stream.next_frame(&frame[..3], 40, 24).is_none());
    let b = stream.next_frame(&frame, 40, 24).unwrap();
    assert_eq!((a.seq, b.seq, stream.last_seq), (1, 2, 2));
    assert_eq!(a.side, 24);
}
