//! The frame source: what a decoder needs to know of a video, whatever
//! container it came from.

use vstd::prelude::*;
use crate::avi::{
    chunk_nodes, find_list, frame_nodes, open_outcome, payload_of, AviFile, AviModel, ColorCoding,
};
use crate::error::{Failure, VideoError, VideoErrorKind};
use crate::fourcc::FOURCC_MOVI;
use crate::riff::{parse_file, Node};

verus! {

/// How the colour samples of a frame are laid out.
#[derive(Clone, Copy, Debug, PartialEq, Eq, Structural)]
pub enum Bayer {
    Mono,
    RGGB,
    GRBG,
    GBRG,
    BGGR,
    CYYM,
    YCMY,
    YMCY,
    MYYC,
    RGB,
    BGR,
    Unknown(u32),
}

/// The byte order of samples wider than one byte.
#[derive(Clone, Copy, Debug, PartialEq, Eq, Structural)]
pub enum Endianness {
    LittleEndian,
    BigEndian,
}

/// A video as the contracts see it.
pub struct VideoModel {
    pub image_width: u32,
    pub image_height: u32,
    pub bytes_per_pixel: u8,
    pub pixel_depth_bits: u32,
    pub bayer: Bayer,
    pub endianness: Endianness,
    /// The raw bytes of each frame, in display order.
    pub frames: Seq<Seq<u8>>,
}

/// The failure of a frame lookup.
pub open spec fn frame_index_failure() -> Failure {
    Failure { kind: VideoErrorKind::FrameIndexOutOfRange, message: "frame index out of range"@ }
}

/// What `get_frame` owes its caller for `index` on a video seen as `model`.
pub open spec fn get_frame_post(
    model: VideoModel,
    index: usize,
    result: Result<&[u8], VideoError>,
) -> bool {
    match result {
        Ok(bytes) => index < model.frames.len() && bytes@ == model.frames[index as int],
        Err(e) => index >= model.frames.len() && e@ == frame_index_failure(),
    }
}

/// A source of raw frames.
pub trait Video {
    /// The video as the contracts see it.
    spec fn model(&self) -> VideoModel;

    fn image_width(&self) -> (w: u32)
        ensures
            w == self.model().image_width,
    ;

    fn image_height(&self) -> (h: u32)
        ensures
            h == self.model().image_height,
    ;

    /// The number of frames that `get_frame` serves.
    fn frame_count(&self) -> (n: usize)
        ensures
            n == self.model().frames.len(),
    ;

    /// The bytes that one sample of one colour plane takes.
    fn bytes_per_pixel(&self) -> (n: u8)
        ensures
            n == self.model().bytes_per_pixel,
    ;

    /// The significant bits of one sample of one colour plane.
    fn pixel_depth_bits(&self) -> (n: u32)
        ensures
            n == self.model().pixel_depth_bits,
    ;

    fn bayer(&self) -> (b: &Bayer)
        ensures
            *b == self.model().bayer,
    ;

    fn endianness(&self) -> (e: &Endianness)
        ensures
            *e == self.model().endianness,
    ;

    /// The raw bytes of the frame at `index`: served for every index below
    /// `frame_count`, refused for every other.
    fn get_frame(&self, index: usize) -> (r: Result<&[u8], VideoError>)
        ensures
            get_frame_post(self.model(), index, r),
    ;
}

/// Of any video, the frames below its frame count are served and no
/// others: a lookup at or past the count fails as a frame index out of
/// range, and a lookup below it gives the bytes of that frame.
pub proof fn lemma_frames_served_below_count<V: Video>(
    video: V,
    count: usize,
    index: usize,
    result: Result<&[u8], VideoError>,
)
    requires
        count == video.model().frames.len(),
        get_frame_post(video.model(), index, result),
    ensures
        index < count <==> result is Ok,
        index >= count <==> (result matches Err(e) && e.kind
            == VideoErrorKind::FrameIndexOutOfRange),
        result matches Ok(bytes) ==> bytes@ == video.model().frames[index as int],
{
}

/// The failure of a frame lookup.
fn frame_index_error() -> (e: VideoError)
    ensures
        e@ == frame_index_failure(),
{
    VideoError::with_message(VideoErrorKind::FrameIndexOutOfRange, "frame index out of range")
}

// ---------------------------------------------------------------------
// Raw sensor recordings
// ---------------------------------------------------------------------

/// A raw sensor recording held in memory: what its header declares, and
/// the bytes of each of its frames.
pub struct SerVideo {
    /// Image width, in pixels
    pub image_width: u32,
    /// Image height, in pixels
    pub image_height: u32,
    /// Number of bytes per pixel (1 or 2)
    pub bytes_per_pixel: u8,
    /// Pixel depth per plane
    pub pixel_depth_per_plane: u32,
    /// Bayer encoding
    pub bayer: Bayer,
    /// The endianness of encoded image data. This is only relevant if the image data is 16-bit
    pub endianness: Endianness,
    /// The bytes of each frame
    pub frames: Vec<Vec<u8>>,
}

/// The frames as the contracts see them.
pub open spec fn frames_of(frames: Seq<Vec<u8>>) -> Seq<Seq<u8>> {
    Seq::new(frames.len(), |i: int| frames[i]@)
}

impl Video for SerVideo {
    open spec fn model(&self) -> VideoModel {
        VideoModel {
            image_width: self.image_width,
            image_height: self.image_height,
            bytes_per_pixel: self.bytes_per_pixel,
            pixel_depth_bits: self.pixel_depth_per_plane,
            bayer: self.bayer,
            endianness: self.endianness,
            frames: frames_of(self.frames@),
        }
    }

    fn image_width(&self) -> (w: u32) {
        self.image_width
    }

    fn image_height(&self) -> (h: u32) {
        self.image_height
    }

    fn frame_count(&self) -> (n: usize) {
        self.frames.len()
    }

    fn get_frame(&self, index: usize) -> (r: Result<&[u8], VideoError>) {
        if index < self.frames.len() {
            Ok(self.frames[index].as_slice())
        } else {
            Err(frame_index_error())
        }
    }

    fn bytes_per_pixel(&self) -> (n: u8) {
        self.bytes_per_pixel
    }

    fn pixel_depth_bits(&self) -> (n: u32) {
        self.pixel_depth_per_plane
    }

    fn bayer(&self) -> (b: &Bayer) {
        &self.bayer
    }

    fn endianness(&self) -> (e: &Endianness) {
        &self.endianness
    }
}

// ---------------------------------------------------------------------
// AVI files
// ---------------------------------------------------------------------

/// The video that an AVI file holds.
pub struct AviVideo {
    pub avi: AviFile,
}

/// The bytes of each frame of an opened file.
pub open spec fn frame_payloads(file: AviModel) -> Seq<Seq<u8>> {
    Seq::new(file.frames.len(), |i: int| payload_of(file.bytes, file.frames[i]).unwrap())
}

/// A file that opens serves as many frames as the index built from its
/// first `movi` list is long, whatever number its main header declares.
pub proof fn lemma_frame_count_is_index_length(bytes: Seq<u8>)
    ensures
        open_outcome(bytes) matches Ok(file) ==> parse_file(bytes) matches Some(nodes) && find_list(
            nodes,
            FOURCC_MOVI@,
        ) matches Some(movi) && file.frames == frame_nodes(movi->children) && frame_payloads(
            file,
        ).len() == frame_nodes(movi->children).len(),
{
}

/// The bits of one colour plane where a pixel of three planes takes
/// `bit_count` bits.
pub open spec fn plane_depth(bit_count: u16) -> u32 {
    (bit_count / 3) as u32
}

/// The bytes that a sample of `depth` bits takes.
pub open spec fn plane_bytes(depth: u32) -> u8 {
    ((depth + 7) / 8) as u8
}

/// The layout of samples that goes with a colour coding.
pub open spec fn layout_of(coding: ColorCoding) -> Bayer {
    match coding {
        ColorCoding::BGR => Bayer::BGR,
    }
}

impl Video for AviVideo {
    open spec fn model(&self) -> VideoModel {
        VideoModel {
            image_width: self.avi@.main_header.width,
            image_height: self.avi@.main_header.height,
            bytes_per_pixel: plane_bytes(plane_depth(self.avi@.stream_format.header.bit_count)),
            pixel_depth_bits: plane_depth(self.avi@.stream_format.header.bit_count),
            bayer: layout_of(self.avi@.stream_format.color_coding),
            endianness: Endianness::LittleEndian,
            frames: frame_payloads(self.avi@),
        }
    }

    fn image_width(&self) -> (w: u32) {
        self.avi.main_header().width
    }

    fn image_height(&self) -> (h: u32) {
        self.avi.main_header().height
    }

    /// The length of the index of frames, whatever number of frames the
    /// main header declares.
    fn frame_count(&self) -> (n: usize)
        ensures
            n == self.avi@.frames.len(),
    {
        self.avi.frames().len()
    }

    /// One byte: the only pixels decoded are those of 24 bits.
    fn bytes_per_pixel(&self) -> (n: u8)
        ensures
            n == 1,
    {
        let depth = self.pixel_depth_bits();
        ((depth + 7) / 8) as u8
    }

    /// Eight bits: the only pixels decoded are those of 24 bits.
    fn pixel_depth_bits(&self) -> (n: u32)
        ensures
            n == 8,
    {
        (self.avi.stream_format().header.bit_count / 3) as u32
    }

    fn bayer(&self) -> (b: &Bayer) {
        match self.avi.stream_format().color_coding {
            ColorCoding::BGR => &Bayer::BGR,
        }
    }

    fn endianness(&self) -> (e: &Endianness) {
        &Endianness::LittleEndian
    }

    /// The declared bytes of the frame, as many as its chunk declares.
    fn get_frame(&self, index: usize) -> (r: Result<&[u8], VideoError>)
        ensures
            r matches Ok(bytes) ==> self.avi@.frames[index as int] is Chunk && bytes@.len()
                == self.avi@.frames[index as int]->chunk_size,
    {
        let frames = self.avi.frames();
        if index >= frames.len() {
            return Err(frame_index_error());
        }
        let frame_meta = &frames[index];
        assert(chunk_nodes(frames@)[index as int] == frame_meta.node());
        match self.avi.read_bytes(frame_meta) {
            Some(bytes) => Ok(bytes),
            None => Err(frame_index_error()),
        }
    }
}

} // verus!
