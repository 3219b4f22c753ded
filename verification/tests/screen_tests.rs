use base64::Engine;
use screen_webp::screen::{encode_frame, take_screen};
use screen_webp::types::{ApiError, RawFrame};

fn b64_decode(s: &str) -> Vec<u8> {
    base64::engine::general_purpose::STANDARD
        .decode(s.as_bytes())
        .expect("content must decode")
}

fn frame(width: u32, height: u32) -> RawFrame {
    let len = width as usize * height as usize * 4;
    RawFrame::new(vec![0x20u8; len], width, height).expect("frame dimensions are valid")
}

#[test]
fn raw_frame_new_accepts_exact_buffer() {
    let f = RawFrame::new(vec![0u8; 16], 2, 2).expect("buffer length matches");
    assert_eq!(f.width, 2);
    assert_eq!(f.height, 2);
    assert_eq!(f.pixels.len(), 16);
}

#[test]
fn raw_frame_new_rejects_short_buffer() {
    assert!(RawFrame::new(vec![0u8; 15], 2, 2).is_none());
}

#[test]
fn raw_frame_new_rejects_zero_dimension() {
    assert!(RawFrame::new(Vec::new(), 0, 2).is_none());
    assert!(RawFrame::new(Vec::new(), 2, 0).is_none());
}

#[test]
fn encode_frame_names_by_position() {
    let img = encode_frame(&frame(2, 2), 3).expect("encode should succeed");
    assert_eq!(img.name, "screen-3.webp");
    assert_eq!(img.content_type, "image/webp");
    assert_eq!(img.width, 2);
    assert_eq!(img.height, 2);
}

#[test]
fn take_screen_with_no_displays_is_empty_success() {
    let shots = take_screen(Vec::new()).expect("no displays is not an error");
    assert!(shots.is_empty());
}

#[test]
fn take_screen_two_displays() {
    let captures = vec![Some(frame(1920, 1080)), Some(frame(2560, 1440))];
    let shots = take_screen(captures).expect("capture batch should succeed");
    assert_eq!(shots.len(), 2);
    assert_eq!(shots[0].name, "screen-1.webp");
    assert_eq!(shots[1].name, "screen-2.webp");
    assert_eq!(shots[0].width, 1920);
    assert_eq!(shots[0].height, 1080);
    assert_eq!(shots[1].width, 2560);
    assert_eq!(shots[1].height, 1440);
    for shot in &shots {
        assert_eq!(shot.content_type, "image/webp");
        let bytes = b64_decode(&shot.content);
        assert!(!bytes.is_empty());
        assert_eq!(&bytes[0..4], b"RIFF");
    }
}

#[test]
fn take_screen_fails_whole_batch_on_missing_capture() {
    let captures = vec![Some(frame(2, 2)), None];
    assert!(matches!(
        take_screen(captures),
        Err(ApiError::CaptureFailed(2))
    ));
}

#[test]
fn take_screen_fails_on_malformed_capture() {
    let bad = RawFrame { pixels: vec![0u8; 3], width: 2, height: 2 };
    assert!(matches!(
        take_screen(vec![Some(bad)]),
        Err(ApiError::CaptureFailed(1))
    ));
}
