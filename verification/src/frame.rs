//! Decoded frames and their metadata.
//!
//! A frame is tagged audio or video and carries its decoded payload as plain
//! values, together with the presentation time, the byte position of the
//! owning packet, and the packet's byte offset.  Audio samples are mono
//! single-precision values held as IEEE bit patterns; video pixels are RGBA
//! bytes.

use vstd::prelude::*;
use crate::units;

verus! {

/// Presentation time and provenance of one decoded frame.
#[derive(Clone, Copy, Debug)]
pub struct FrameMetadata {
    /// Byte position the owning packet was read at (`-1` when unknown).
    pub byte_pos: i64,
    /// The packet's own byte offset as the backend reported it.
    pub pkt_pos: i64,
    /// Presentation time.
    pub time: units::Seconds,
}

/// One decoded audio frame: mono samples, already in canonical form,
/// each held as the bit pattern of an IEEE single-precision value.
pub struct Audio {
    pub meta: FrameMetadata,
    pub samples: Vec<u32>,
    /// Samples per second of the payload.
    pub rate: u32,
}

/// One decoded video frame: RGBA rows of `stride` pixels each.
pub struct Video {
    pub meta: FrameMetadata,
    /// Whether the frame is a keyframe.
    pub is_key: bool,
    /// Pixels per row of the payload.
    pub stride: u32,
    /// RGBA bytes, rows back-to-back.
    pub data: Vec<u8>,
}

pub enum Frame {
    Audio(Audio),
    Video(Video),
}

impl Frame {
    /// The metadata of the frame, whichever kind it is.
    pub fn meta(&self) -> (r: &FrameMetadata)
        ensures
            r == match self {
                Frame::Audio(f) => &f.meta,
                Frame::Video(f) => &f.meta,
            },
    {
        match self {
            Frame::Audio(f) => &f.meta,
            Frame::Video(f) => &f.meta,
        }
    }

    /// Wraps an audio frame.
    pub fn from_audio(value: Audio) -> (r: Frame)
        ensures
            r == Frame::Audio(value),
    {
        Frame::Audio(value)
    }

    /// Wraps a video frame.
    pub fn from_video(value: Video) -> (r: Frame)
        ensures
            r == Frame::Video(value),
    {
        Frame::Video(value)
    }
}

} // verus!
