//! The image codec: lossy WebP compression of raw RGBA buffers at a fixed
//! quality, base-64 packaging of the compressed bytes, and re-encoding of a
//! caller-supplied raw buffer. The compression and the base-64 alphabet live
//! in outside crates and are reached through the trusted wrappers below;
//! everything around them is verified.

use vstd::prelude::*;
use vstd::string::*;

use crate::names::{rewrite_name, rewritten_name};
use crate::types::{ApiError, Image};
use base64::Engine;

verus! {

/// The codec's fixed MIME identifier.
pub open spec fn webp_mime() -> Seq<char> {
    "image/webp"@
}

/// The largest width or height libwebp encodes; the codec refuses any
/// picture beyond it.
pub const WEBP_MAX_DIMENSION: u32 = 16383;

/// The base-64 rendering (standard alphabet, with padding) of a byte
/// sequence, as computed by the base64 crate.
pub uninterp spec fn base64_of(bytes: Seq<u8>) -> Seq<char>;

/// The lossy WebP stream that the webp crate produces for an RGBA buffer of
/// the given dimensions at this library's fixed quality setting.
pub uninterp spec fn webp_bytes_of(pixels: Seq<u8>, width: u32, height: u32) -> Seq<u8>;

/// Whether the webp crate accepts an RGBA buffer of the given dimensions at
/// this library's fixed quality setting. Acceptance, like the stream itself,
/// is a function of the arguments alone.
pub uninterp spec fn webp_accepts(pixels: Seq<u8>, width: u32, height: u32) -> bool;

/// Whether `s` is the base-64 rendering of some byte sequence.
pub open spec fn is_base64(s: Seq<char>) -> bool {
    exists|b: Seq<u8>| s == base64_of(b)
}

/// Relies on the base64 crate's `STANDARD` engine: `Engine::encode` renders
/// the bytes in the standard alphabet with padding, four output characters
/// for every three input bytes, the last group padded.
#[verifier::external_body]
fn base64_encode(bytes: &Vec<u8>) -> (r: String)
    ensures
        r@ == base64_of(bytes@),
        r@.len() == 4 * ((bytes@.len() + 2) / 3),
{
    base64::engine::general_purpose::STANDARD.encode(bytes.as_slice())
}

/// Relies on the base64 crate's `STANDARD` engine: `Engine::decode` inverts
/// `Engine::encode`, and, since the engine demands canonical padding and
/// rejects set trailing bits, it accepts exactly the strings that `encode`
/// produces.
#[verifier::external_body]
fn base64_decode(s: &str) -> (r: Result<Vec<u8>, ApiError>)
    ensures
        r matches Ok(v) ==> s@ == base64_of(v@),
        r matches Ok(v) ==> forall|b: Seq<u8>| s@ == base64_of(b) ==> v@ == b,
        r is Err ==> !is_base64(s@),
        r matches Err(e) ==> e == ApiError::DecodeFailed,
{
    match base64::engine::general_purpose::STANDARD.decode(s.as_bytes()) {
        Ok(v) => Ok(v),
        Err(_) => Err(ApiError::DecodeFailed),
    }
}

/// Relies on `webp::Encoder::from_rgba` and `webp::Encoder::encode_simple`:
/// lossy compression with libwebp's default configuration at a fixed quality
/// is deterministic, so both the stream and whether the input is accepted at
/// all are functions of the pixel bytes and the dimensions alone, and a
/// successful encode yields a non-empty RIFF container. `from_rgba` demands a
/// buffer of at least `width * height * 4` bytes, which the precondition
/// supplies exactly; the dimension bound keeps the crate's internal stride
/// arithmetic (the width times the bytes per pixel, computed in a 32-bit
/// signed integer) from overflowing, and is libwebp's own picture limit.
#[verifier::external_body]
fn webp_encode_rgba(pixels: &Vec<u8>, width: u32, height: u32) -> (r: Result<Vec<u8>, ApiError>)
    requires
        pixels@.len() as int == (width as int) * (height as int) * 4,
        1 <= width <= WEBP_MAX_DIMENSION,
        1 <= height <= WEBP_MAX_DIMENSION,
    ensures
        (r is Ok) <==> webp_accepts(pixels@, width, height),
        r matches Ok(b) ==> b@ == webp_bytes_of(pixels@, width, height) && b@.len() > 0,
        r matches Err(e) ==> e == ApiError::EncodeFailed,
{
    let encoder = webp::Encoder::from_rgba(pixels.as_slice(), width, height);
    match encoder.encode_simple(false, 65u8.into()) {
        Ok(mem) => Ok(mem.to_vec()),
        Err(_) => Err(ApiError::EncodeFailed),
    }
}

/// What the codec promises of every record it emits for the buffer `pixels`
/// of the given dimensions under the name `name`.
pub open spec fn encode_post(
    img: Image,
    name: Seq<char>,
    pixels: Seq<u8>,
    width: u32,
    height: u32,
) -> bool {
    &&& img.name@ == name
    &&& img.content_type@ == webp_mime()
    &&& img.content@ == base64_of(webp_bytes_of(pixels, width, height))
    &&& webp_bytes_of(pixels, width, height).len() > 0
    &&& img.content@.len() == 4 * ((webp_bytes_of(pixels, width, height).len() + 2) / 3)
    &&& img.content@.len() > 0
    &&& img.width == width
    &&& img.height == height
}

/// Compresses a raw RGBA buffer and packages the result as a transport
/// record carrying `name` and echoing the dimensions. Succeeds exactly when
/// the dimensions are within the codec's picture limit and the codec accepts
/// the buffer.
pub fn encode(name: String, pixels: &Vec<u8>, width: u32, height: u32) -> (r: Result<
    Image,
    ApiError,
>)
    requires
        pixels@.len() as int == (width as int) * (height as int) * 4,
        width >= 1,
        height >= 1,
    ensures
        (r is Ok) <==> (width <= WEBP_MAX_DIMENSION && height <= WEBP_MAX_DIMENSION
            && webp_accepts(pixels@, width, height)),
        r matches Ok(img) ==> encode_post(img, name@, pixels@, width, height),
        r matches Err(e) ==> e == ApiError::EncodeFailed,
{
    if width > WEBP_MAX_DIMENSION || height > WEBP_MAX_DIMENSION {
        return Err(ApiError::EncodeFailed);
    }
    match webp_encode_rgba(pixels, width, height) {
        Ok(bytes) => {
            let content = base64_encode(&bytes);
            let mime = String::from_str("image/webp");
            Ok(Image::new(name, mime, content, width, height))
        },
        Err(e) => Err(e),
    }
}

/// Re-encodes a transport record whose payload is a raw RGBA buffer rendered
/// in base-64: decodes the payload, checks it against the declared
/// dimensions, compresses it, and emits a record named after the source with
/// the canonical extension. The payload is treated as raw pixels, never as an
/// already-compressed image. The clauses quantified over the decoded buffer
/// `b` let a caller who rendered a buffer conclude that exactly that buffer
/// reached the codec.
pub fn reencode(source: &Image) -> (r: Result<Image, ApiError>)
    ensures
        (r == Err::<Image, ApiError>(ApiError::DecodeFailed)) <==> !is_base64(source.content@),
        forall|b: Seq<u8>|
            source.content@ == base64_of(b) ==> ((r == Err::<Image, ApiError>(
                ApiError::DimensionMismatch,
            )) <==> b.len() as int != (source.width as int) * (source.height as int) * 4),
        forall|b: Seq<u8>|
            source.content@ == base64_of(b) ==> ((r is Ok) <==> (b.len() as int == (
            source.width as int) * (source.height as int) * 4 && 1 <= source.width
                <= WEBP_MAX_DIMENSION && 1 <= source.height <= WEBP_MAX_DIMENSION && webp_accepts(
                b,
                source.width,
                source.height,
            ))),
        forall|b: Seq<u8>|
            source.content@ == base64_of(b) ==> (r matches Ok(img) ==> encode_post(
                img,
                rewritten_name(source.name@),
                b,
                source.width,
                source.height,
            )),
        r matches Err(e) ==> (e == ApiError::DecodeFailed || e == ApiError::DimensionMismatch
            || e == ApiError::EncodeFailed),
{
    let decoded = match base64_decode(source.content.as_str()) {
        Ok(v) => v,
        Err(_) => {
            proof {
                assert(!is_base64(source.content@)) by {
                    if exists|b: Seq<u8>| source.content@ == base64_of(b) {
                        let b0 = choose|b: Seq<u8>| source.content@ == base64_of(b);
                        assert(source.content@ == base64_of(b0));
                    }
                }
            }
            return Err(ApiError::DecodeFailed);
        },
    };
    proof {
        assert(is_base64(source.content@));
        assert(forall|b: Seq<u8>| source.content@ == base64_of(b) ==> b == decoded@);
    }
    proof {
        assert((source.width as int) * (source.height as int) * 4
            < 0x100000000000000000000000000000000int) by (nonlinear_arith)
            requires
                source.width < 0x100000000,
                source.height < 0x100000000,
        ;
    }
    let need: u128 = (source.width as u128) * (source.height as u128) * 4;
    if (decoded.len() as u128) != need {
        return Err(ApiError::DimensionMismatch);
    }
    if source.width == 0 || source.height == 0 || source.width > WEBP_MAX_DIMENSION
        || source.height > WEBP_MAX_DIMENSION {
        return Err(ApiError::EncodeFailed);
    }
    let new_name = rewrite_name(source.name.as_str());
    match encode(new_name, &decoded, source.width, source.height) {
        Ok(img) => Ok(img),
        Err(e) => Err(e),
    }
}

/// Dimension preservation: a record the codec emits for a buffer of declared
/// dimensions echoes exactly those dimensions.
pub proof fn lemma_encode_preserves_dimensions(
    img: Image,
    name: Seq<char>,
    pixels: Seq<u8>,
    width: u32,
    height: u32,
)
    requires
        encode_post(img, name, pixels, width, height),
    ensures
        img.width == width,
        img.height == height,
{
}

/// Content-type invariant: every record the codec emits carries the codec's
/// fixed MIME identifier.
pub proof fn lemma_encode_content_type(
    img: Image,
    name: Seq<char>,
    pixels: Seq<u8>,
    width: u32,
    height: u32,
)
    requires
        encode_post(img, name, pixels, width, height),
    ensures
        img.content_type@ == webp_mime(),
{
}

/// Quality stability: two records the codec emits for the same buffer and
/// dimensions carry byte-identical payloads, whatever their names.
pub proof fn lemma_encode_deterministic(
    img1: Image,
    name1: Seq<char>,
    img2: Image,
    name2: Seq<char>,
    pixels: Seq<u8>,
    width: u32,
    height: u32,
)
    requires
        encode_post(img1, name1, pixels, width, height),
        encode_post(img2, name2, pixels, width, height),
    ensures
        img1.content@ == img2.content@,
{
}

/// Every payload the codec emits is a base-64 rendering, so decoding it
/// succeeds.
pub proof fn lemma_encoded_content_decodes(
    img: Image,
    name: Seq<char>,
    pixels: Seq<u8>,
    width: u32,
    height: u32,
)
    requires
        encode_post(img, name, pixels, width, height),
    ensures
        is_base64(img.content@),
{
    let w = webp_bytes_of(pixels, width, height);
    assert(img.content@ == base64_of(w));
    assert(is_base64(img.content@));
}

} // verus!
