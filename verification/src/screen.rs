//! The capture pipeline: turns the per-display captures that the platform
//! reported into named, encoded transport records, all-or-nothing.
//!
//! Talking to the operating system's display enumerator cannot stand here
//! (it needs the platform's capture service); the caller performs the
//! platform calls and hands over, in enumeration order, one entry per
//! display: the captured frame, or `None` where the platform could not read
//! that display. Everything from there on is verified.

use vstd::prelude::*;

use crate::codec::{encode, encode_post, webp_accepts, WEBP_MAX_DIMENSION};
use crate::names::{screen_name, screen_name_spec};
use crate::types::{ApiError, Image, RawFrame};

verus! {

/// A usable platform capture: present and well-formed.
pub open spec fn valid_capture(c: Option<RawFrame>) -> bool {
    c matches Some(f) && f.wf()
}

/// A capture the pipeline turns into a record: usable, within the codec's
/// picture limit, and accepted by the codec.
pub open spec fn capture_ok(c: Option<RawFrame>) -> bool {
    &&& valid_capture(c)
    &&& c.unwrap().width <= WEBP_MAX_DIMENSION
    &&& c.unwrap().height <= WEBP_MAX_DIMENSION
    &&& webp_accepts(c.unwrap().pixels@, c.unwrap().width, c.unwrap().height)
}

/// What the capture operation promises of the record at 0-based position `k`
/// of its result, given the capture the platform delivered there.
pub open spec fn captured_image_ok(img: Image, c: Option<RawFrame>, k: int) -> bool {
    encode_post(img, screen_name_spec(k + 1), c.unwrap().pixels@, c.unwrap().width, c.unwrap().height)
}

/// Encodes one captured frame under the name of the display at 1-based
/// position `k`. Succeeds exactly when the frame is within the codec's
/// picture limit and the codec accepts it.
pub fn encode_frame(frame: &RawFrame, k: usize) -> (r: Result<Image, ApiError>)
    requires
        frame.wf(),
    ensures
        (r is Ok) <==> (frame.width <= WEBP_MAX_DIMENSION && frame.height <= WEBP_MAX_DIMENSION
            && webp_accepts(frame.pixels@, frame.width, frame.height)),
        r matches Ok(img) ==> encode_post(
            img,
            screen_name_spec(k as int),
            frame.pixels@,
            frame.width,
            frame.height,
        ),
        r matches Err(e) ==> e == ApiError::EncodeFailed,
{
    let name = screen_name(k);
    encode(name, &frame.pixels, frame.width, frame.height)
}

/// Encodes every display capture, in enumeration order, naming the record at
/// 1-based position `k` `screen-{k}.webp`. The operation is all-or-nothing
/// and succeeds exactly when every capture is usable and accepted by the
/// codec; a missing or malformed capture fails the whole batch with exactly
/// the index of the first such display, and no partial result is returned.
/// No display at all is not an error: the result is the empty sequence.
pub fn take_screen(captures: Vec<Option<RawFrame>>) -> (r: Result<Vec<Image>, ApiError>)
    ensures
        captures@.len() == 0 ==> (r matches Ok(v) && v@.len() == 0),
        (r is Ok) <==> (forall|k: int|
            0 <= k < captures@.len() ==> capture_ok(#[trigger] captures@[k])),
        r matches Ok(v) ==> v@.len() == captures@.len() && forall|k: int|
            0 <= k < v@.len() ==> valid_capture(#[trigger] captures@[k]) && captured_image_ok(
                v@[k],
                captures@[k],
                k,
            ),
        r matches Err(ApiError::CaptureFailed(i)) ==> 1 <= i <= captures@.len() && !valid_capture(
            captures@[i as int - 1],
        ) && (forall|j: int| 0 <= j < i as int - 1 ==> capture_ok(#[trigger] captures@[j])),
        forall|j: int|
            (0 <= j < captures@.len() && !valid_capture(#[trigger] captures@[j]) && (forall|l: int|
                0 <= l < j ==> capture_ok(#[trigger] captures@[l]))) ==> r == Err::<
                Vec<Image>,
                ApiError,
            >(ApiError::CaptureFailed((j + 1) as usize)),
        r matches Err(e) ==> (e is CaptureFailed || e is EncodeFailed),
{
    let mut out: Vec<Image> = Vec::new();
    let mut i: usize = 0;
    while i < captures.len()
        invariant
            i <= captures@.len(),
            out@.len() == i,
            forall|k: int| 0 <= k < i ==> capture_ok(#[trigger] captures@[k]),
            forall|k: int|
                0 <= k < i ==> captured_image_ok(#[trigger] out@[k], captures@[k], k),
        decreases captures@.len() - i,
    {
        match &captures[i] {
            None => {
                return Err(ApiError::CaptureFailed(i + 1));
            },
            Some(frame) => {
                if !frame.check_wf() {
                    return Err(ApiError::CaptureFailed(i + 1));
                }
                match encode_frame(frame, i + 1) {
                    Ok(img) => out.push(img),
                    Err(_) => {
                        proof {
                            assert(!capture_ok(captures@[i as int]));
                        }
                        return Err(ApiError::EncodeFailed);
                    },
                }
            },
        }
        i += 1;
    }
    Ok(out)
}

} // verus!
