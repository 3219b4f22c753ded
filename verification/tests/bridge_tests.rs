use base64::Engine;
use screen_webp::bridge::{convert_webp, parse_image_record, Field, FieldValue};
use screen_webp::types::ApiError;

fn text(key: &str, value: &str) -> Field {
    Field { key: key.to_string(), value: FieldValue::Text(value.to_string()) }
}

fn number(key: &str, value: u32) -> Field {
    Field { key: key.to_string(), value: FieldValue::Number(value) }
}

fn red_record() -> Vec<Field> {
    let content =
        base64::engine::general_purpose::STANDARD.encode([0xFFu8, 0, 0, 0xFF].repeat(4));
    vec![
        text("name", "photo.png"),
        text("content_type", "image/png"),
        text("content", &content),
        number("width", 2),
        number("height", 2),
    ]
}

#[test]
fn parse_accepts_complete_record() {
    let img = parse_image_record(red_record()).expect("record is well-formed");
    assert_eq!(img.name, "photo.png");
    assert_eq!(img.content_type, "image/png");
    assert_eq!(img.width, 2);
    assert_eq!(img.height, 2);
}

#[test]
fn parse_accepts_any_field_order() {
    let mut fields = red_record();
    fields.reverse();
    let img = parse_image_record(fields).expect("order does not matter");
    assert_eq!(img.name, "photo.png");
    assert_eq!(img.height, 2);
}

#[test]
fn parse_rejects_unknown_field() {
    let mut fields = red_record();
    fields.push(text("comment", "extra"));
    assert!(matches!(
        parse_image_record(fields),
        Err(ApiError::BadRequest)
    ));
}

#[test]
fn parse_rejects_missing_field() {
    let mut fields = red_record();
    fields.remove(2);
    assert!(matches!(
        parse_image_record(fields),
        Err(ApiError::BadRequest)
    ));
}

#[test]
fn parse_rejects_repeated_field() {
    let mut fields = red_record();
    fields.push(text("name", "again.png"));
    assert!(matches!(
        parse_image_record(fields),
        Err(ApiError::BadRequest)
    ));
}

#[test]
fn parse_rejects_wrong_value_kind() {
    let mut fields = red_record();
    fields[3] = text("width", "2");
    assert!(matches!(
        parse_image_record(fields),
        Err(ApiError::BadRequest)
    ));
}

#[test]
fn convert_webp_reencodes_record() {
    let img = convert_webp(red_record()).expect("conversion should succeed");
    assert_eq!(img.name, "photo.webp");
    assert_eq!(img.content_type, "image/webp");
    assert_eq!(img.width, 2);
    assert_eq!(img.height, 2);
    let bytes = base64::engine::general_purpose::STANDARD
        .decode(img.content.as_bytes())
        .expect("content must decode");
    assert!(!bytes.is_empty());
}

#[test]
fn convert_webp_rejects_extra_field() {
    let mut fields = red_record();
    fields.push(number("depth", 8));
    assert!(matches!(convert_webp(fields), Err(ApiError::BadRequest)));
}

#[test]
fn convert_webp_reports_dimension_mismatch() {
    let mut fields = red_record();
    let content = base64::engine::general_purpose::STANDARD.encode([0u8; 15]);
    fields[2] = text("content", &content);
    assert!(matches!(
        convert_webp(fields),
        Err(ApiError::DimensionMismatch)
    ));
}

#[test]
fn convert_webp_reports_malformed_base64() {
    let mut fields = red_record();
    fields[2] = text("content", "not-base-64!!!");
    assert!(matches!(convert_webp(fields), Err(ApiError::DecodeFailed)));
}
