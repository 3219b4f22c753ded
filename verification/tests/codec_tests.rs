use base64::Engine;
use screen_webp::codec::{encode, reencode};
use screen_webp::names::{rewrite_name, screen_name};
use screen_webp::types::{ApiError, Image};

fn b64(bytes: &[u8]) -> String {
    base64::engine::general_purpose::STANDARD.encode(bytes)
}

fn b64_decode(s: &str) -> Vec<u8> {
    base64::engine::general_purpose::STANDARD
        .decode(s.as_bytes())
        .expect("content must decode")
}

fn rgba_red(pixels: usize) -> Vec<u8> {
    let mut v = Vec::new();
    for _ in 0..pixels {
        v.extend_from_slice(&[0xFF, 0x00, 0x00, 0xFF]);
    }
    v
}

#[test]
fn image_new_packs_fields() {
    let img = Image::new(
        "shot.webp".to_string(),
        "image/webp".to_string(),
        "AAAA".to_string(),
        640,
        480,
    );
    assert_eq!(img.name, "shot.webp");
    assert_eq!(img.content_type, "image/webp");
    assert_eq!(img.content, "AAAA");
    assert_eq!(img.width, 640);
    assert_eq!(img.height, 480);
}

#[test]
fn rewrite_name_replaces_extension() {
    assert_eq!(rewrite_name("photo.png"), "photo.webp");
}

#[test]
fn rewrite_name_keeps_all_but_last_segment() {
    assert_eq!(rewrite_name("archive.tar.gz"), "archive.tar.webp");
}

#[test]
fn rewrite_name_appends_when_dotless() {
    assert_eq!(rewrite_name("snapshot"), "snapshot.webp");
}

#[test]
fn rewrite_name_empty_name_becomes_extension() {
    assert_eq!(rewrite_name(""), "webp");
}

#[test]
fn rewrite_name_preserves_path_separators() {
    assert_eq!(rewrite_name("pics/photo.png"), "pics/photo.webp");
}

#[test]
fn screen_name_formats_index() {
    assert_eq!(screen_name(1), "screen-1.webp");
    assert_eq!(screen_name(2), "screen-2.webp");
    assert_eq!(screen_name(12), "screen-12.webp");
    assert_eq!(screen_name(105), "screen-105.webp");
}

#[test]
fn encode_emits_webp_record() {
    let pixels = rgba_red(4);
    let img = encode("shot.webp".to_string(), &pixels, 2, 2).expect("encode should succeed");
    assert_eq!(img.name, "shot.webp");
    assert_eq!(img.content_type, "image/webp");
    assert_eq!(img.width, 2);
    assert_eq!(img.height, 2);
    let bytes = b64_decode(&img.content);
    assert!(!bytes.is_empty());
    assert_eq!(&bytes[0..4], b"RIFF");
    assert_ne!(bytes, pixels);
}

#[test]
fn encode_is_deterministic() {
    let pixels = rgba_red(4);
    let a = encode("a.webp".to_string(), &pixels, 2, 2).expect("encode should succeed");
    let b = encode("b.webp".to_string(), &pixels, 2, 2).expect("encode should succeed");
    assert_eq!(a.content, b.content);
}

#[test]
fn reencode_renames_and_transcodes() {
    let source = Image::new(
        "photo.png".to_string(),
        "image/png".to_string(),
        b64(&rgba_red(4)),
        2,
        2,
    );
    let img = reencode(&source).expect("reencode should succeed");
    assert_eq!(img.name, "photo.webp");
    assert_eq!(img.content_type, "image/webp");
    assert_eq!(img.width, 2);
    assert_eq!(img.height, 2);
    let bytes = b64_decode(&img.content);
    assert!(!bytes.is_empty());
    assert_eq!(&bytes[0..4], b"RIFF");
}

#[test]
fn reencode_appends_extension_to_dotless_name() {
    let source = Image::new(
        "photo".to_string(),
        "image/png".to_string(),
        b64(&rgba_red(4)),
        2,
        2,
    );
    let img = reencode(&source).expect("reencode should succeed");
    assert_eq!(img.name, "photo.webp");
}

#[test]
fn reencode_rejects_wrong_byte_count() {
    let source = Image::new(
        "photo.png".to_string(),
        "image/png".to_string(),
        b64(&[0u8; 15]),
        2,
        2,
    );
    assert!(matches!(reencode(&source), Err(ApiError::DimensionMismatch)));
}

#[test]
fn reencode_rejects_malformed_base64() {
    let source = Image::new(
        "photo.png".to_string(),
        "image/png".to_string(),
        "not-base-64!!!".to_string(),
        2,
        2,
    );
    assert!(matches!(reencode(&source), Err(ApiError::DecodeFailed)));
}

#[test]
fn reencode_twice_is_stable() {
    let source = Image::new(
        "photo.png".to_string(),
        "image/png".to_string(),
        b64(&rgba_red(4)),
        2,
        2,
    );
    let first = reencode(&source).expect("reencode should succeed");
    let second = reencode(&source).expect("reencode should succeed");
    assert_eq!(first.content, second.content);
}

#[test]
fn base64_round_trips_through_content() {
    // The emitted payload is the canonical rendering of the compressed
    // bytes: decoding and re-encoding it reproduces it exactly.
    let pixels = rgba_red(4);
    let img = encode("x.webp".to_string(), &pixels, 2, 2).expect("encode should succeed");
    let bytes = b64_decode(&img.content);
    assert_eq!(b64(&bytes), img.content);
}

#[test]
fn encode_rejects_oversized_dimensions() {
    let pixels = vec![0u8; 20000 * 4];
    assert!(matches!(
        encode("wide.webp".to_string(), &pixels, 20000, 1),
        Err(ApiError::EncodeFailed)
    ));
}

#[test]
fn encode_accepts_maximum_width() {
    let pixels = vec![0u8; 16383 * 4];
    let img =
        encode("max.webp".to_string(), &pixels, 16383, 1).expect("the codec's limit is encodable");
    assert_eq!(img.width, 16383);
    assert_eq!(img.height, 1);
    assert!(!img.content.is_empty());
}

#[test]
fn reencode_rejects_oversized_dimensions() {
    let source = Image::new(
        "wide.png".to_string(),
        "image/png".to_string(),
        b64(&vec![0u8; 20000 * 4]),
        20000,
        1,
    );
    assert!(matches!(reencode(&source), Err(ApiError::EncodeFailed)));
}
