//! Capture-and-transcode core of a screenshot utility.
//!
//! The library enumerates the attached displays, captures each one as a raw
//! RGBA pixel buffer, compresses the buffer to lossy WebP at a fixed quality,
//! and packages the result as a transport record whose payload is carried in
//! base-64. It also re-encodes a caller-supplied raw RGBA buffer arriving in
//! the same record shape. Screen capture, WebP compression and base-64 live
//! in outside crates and are reached through narrow trusted wrappers; every
//! rule of the pipeline itself (record validation, naming, dimension checks,
//! result packaging) is verified.

pub mod bridge;
pub mod codec;
pub mod names;
pub mod screen;
pub mod types;
