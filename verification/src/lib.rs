//! A format-adaptive codec for byte sequences.
//!
//! A byte buffer has two natural wire shapes: compact binary formats carry it
//! best as a length-prefixed run of raw bytes, while human-readable formats
//! carry it best as a base-64 text string.  This crate provides the codec
//! that picks between the two: [`codec::encode`] turns a buffer into the
//! representation matching the active format, and [`codec::decode`] turns a
//! representation back into the buffer, rejecting text that is not valid
//! base-64.

pub mod b64;
pub mod codec;
