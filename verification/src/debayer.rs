//! Sampling the frames of a raw sensor recording.

use vstd::prelude::*;
use crate::codec::{mosaic_decode, unsupported_layout_failure, DebayerCodec, ImageCodec};
use crate::error::{Failure, VideoError, VideoErrorKind};
use crate::video_format::{frame_index_failure, Bayer, SerVideo, Video, VideoModel};

verus! {

/// What debayering came to, as the contracts see it.
pub open spec fn debayer_outcome(result: Result<Vec<u8>, VideoError>) -> Result<Seq<u8>, Failure> {
    match result {
        Ok(pixels) => Ok(pixels@),
        Err(e) => Err(e@),
    }
}

/// The pixels sampled from frame `index` of a recording whose samples lie
/// in the order red, green, green, blue. Other orders are not sampled.
pub open spec fn sampled_pixels(model: VideoModel, index: usize) -> Result<Seq<u8>, Failure> {
    if index >= model.frames.len() {
        Err(frame_index_failure())
    } else if model.bayer != Bayer::RGGB {
        Err(unsupported_layout_failure())
    } else {
        match mosaic_decode(model, index) {
            Ok(picture) => Ok(picture.pixels),
            Err(failure) => Err(failure),
        }
    }
}

/// Trait for all debayering implementations
pub trait Debayer {
    /// The pixels that frame `index` of a recording comes to.
    spec fn debayered(&self, model: VideoModel, index: usize) -> Result<Seq<u8>, Failure>;

    fn debayer(&self, ser: &SerVideo, frame_index: usize) -> (r: Result<Vec<u8>, VideoError>)
        ensures
            debayer_outcome(r) == self.debayered(ser.model(), frame_index),
    ;
}

/// A very simple debayer that is easy to debug but inefficient and inaccurate
pub struct SimpleDebayer {}

impl Debayer for SimpleDebayer {
    open spec fn debayered(&self, model: VideoModel, index: usize) -> Result<Seq<u8>, Failure> {
        sampled_pixels(model, index)
    }

    /// Samples each block of two by two pixels into one pixel of four
    /// bytes, so that a frame gives four bytes for each such block.
    fn debayer(&self, ser: &SerVideo, frame_index: usize) -> (r: Result<Vec<u8>, VideoError>)
        ensures
            r matches Ok(pixels) ==> pixels@.len() == (ser.image_width / 2) * (ser.image_height / 2)
                * 4,
    {
        if frame_index >= ser.frame_count() {
            return Err(
                VideoError::with_message(
                    VideoErrorKind::FrameIndexOutOfRange,
                    "frame index out of range",
                ),
            );
        }
        match ser.bayer {
            Bayer::RGGB => {},
            _ => {
                return Err(
                    VideoError::with_message(
                        VideoErrorKind::UnsupportedPixelFormat,
                        "pixel layout is not supported",
                    ),
                );
            },
        }
        // this is not real debayering, just using raw values without interpolation
        let codec = DebayerCodec {  };
        match codec.decode(ser, frame_index) {
            Ok((_, _, pixels)) => Ok(pixels),
            Err(e) => Err(e),
        }
    }
}

} // verus!
