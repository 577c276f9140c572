//! Turning one raw frame of a video into a BGRA buffer.

use vstd::prelude::*;
use vstd::arithmetic::div_mod::lemma_fundamental_div_mod_converse;
use crate::error::{Failure, VideoError, VideoErrorKind};
use crate::sample::{normalize_by, normalized, read_sample, sample_at, sample_width, scale_unit};
use crate::video_format::{frame_index_failure, Bayer, Endianness, Video, VideoModel};

verus! {

/// The value of the alpha channel of every decoded pixel.
pub const OPAQUE: u8 = 255;

/// A decoded picture as the contracts see it: `width` by `height` pixels of
/// four bytes each (blue, green, red, alpha), row after row, without
/// padding.
pub struct Picture {
    pub width: u32,
    pub height: u32,
    pub pixels: Seq<u8>,
}

/// What decoding a frame comes to.
pub type DecodeOutcome = Result<Picture, Failure>;

/// What a codec hands back: width, height and pixels.
pub type Decoded = Result<(u32, u32, Vec<u8>), VideoError>;

/// The outcome that a codec's result stands for.
pub open spec fn outcome_of(result: Decoded) -> DecodeOutcome {
    match result {
        Ok((width, height, pixels)) => Ok(Picture { width, height, pixels: pixels@ }),
        Err(e) => Err(e@),
    }
}

/// The failure of decoding a frame that holds too few bytes.
pub open spec fn corrupt_frame_failure() -> Failure {
    Failure {
        kind: VideoErrorKind::CorruptFrameData,
        message: "frame data ends before the picture does"@,
    }
}

/// The failure of decoding pixels in a layout that is not decoded here.
pub open spec fn unsupported_layout_failure() -> Failure {
    Failure {
        kind: VideoErrorKind::UnsupportedPixelFormat,
        message: "pixel layout is not supported"@,
    }
}

/// A decoder of raw frames.
pub trait ImageCodec {
    /// What decoding frame `index` of a video comes to.
    spec fn decoded(&self, model: VideoModel, index: usize) -> DecodeOutcome;

    /// Decodes one frame of a video. What comes of it depends on the codec,
    /// the video and the index alone.
    fn decode<V: Video>(&self, video: &V, frame_index: usize) -> (r: Decoded)
        ensures
            outcome_of(r) == self.decoded(video.model(), frame_index),
    ;
}

/// Decoding the same frame of the same video twice comes to the same:
/// the same picture, byte for byte, or the same failure.
pub proof fn lemma_decoding_repeats<C: ImageCodec>(
    codec: C,
    model: VideoModel,
    index: usize,
    first: Decoded,
    second: Decoded,
)
    requires
        outcome_of(first) == codec.decoded(model, index),
        outcome_of(second) == codec.decoded(model, index),
    ensures
        outcome_of(first) == outcome_of(second),
        first matches Ok(one) ==> second matches Ok(other) && one.0 == other.0 && one.1 == other.1
            && one.2@ == other.2@,
        first matches Err(one) ==> second matches Err(other) && one@ == other@,
{
}

// ---------------------------------------------------------------------
// Packed pixels
// ---------------------------------------------------------------------

/// Byte `i` of the picture made from a frame of packed blue-green-red
/// triplets: the triplet with full opacity behind it.
pub open spec fn packed_byte(frame: Seq<u8>, i: int) -> u8 {
    if i % 4 == 3 {
        OPAQUE
    } else {
        frame[(i / 4) * 3 + i % 4]
    }
}

/// The picture made from the first `count` triplets of a frame.
pub open spec fn packed_pixels(frame: Seq<u8>, count: nat) -> Seq<u8> {
    Seq::new(4 * count, |i: int| packed_byte(frame, i))
}

/// What decoding frame `index` as packed triplets comes to, by a codec
/// set up for the layout `bayer`.
pub open spec fn packed_decode(bayer: Bayer, model: VideoModel, index: usize) -> DecodeOutcome {
    if index >= model.frames.len() {
        Err(frame_index_failure())
    } else if bayer != Bayer::BGR {
        Err(unsupported_layout_failure())
    } else if model.image_width * model.image_height * 3 > model.frames[index as int].len() {
        Err(corrupt_frame_failure())
    } else {
        Ok(
            Picture {
                width: model.image_width,
                height: model.image_height,
                pixels: packed_pixels(
                    model.frames[index as int],
                    (model.image_width * model.image_height) as nat,
                ),
            },
        )
    }
}

/// Decoder for frames of packed colour triplets.
pub struct RgbCodec {
    bayer: Bayer,
}

impl RgbCodec {
    /// A codec for frames laid out as `bayer` says.
    pub fn new(bayer: Bayer) -> (codec: Self)
        ensures
            codec.layout() == bayer,
    {
        Self { bayer }
    }

    /// The layout the codec was set up for.
    pub closed spec fn layout(&self) -> Bayer {
        self.bayer
    }
}

impl ImageCodec for RgbCodec {
    open spec fn decoded(&self, model: VideoModel, index: usize) -> DecodeOutcome {
        packed_decode(self.layout(), model, index)
    }

    /// Appends full opacity to each blue-green-red triplet of the frame.
    /// The picture has the dimensions of the video.
    fn decode<V: Video>(&self, video: &V, frame_index: usize) -> (r: Decoded)
        ensures
            r matches Ok(picture) ==> picture.0 == video.model().image_width && picture.1
                == video.model().image_height && picture.2@.len() == picture.0 * picture.1 * 4,
    {
        let bytes = match video.get_frame(frame_index) {
            Ok(bytes) => bytes,
            Err(e) => {
                return Err(e);
            },
        };
        match self.bayer {
            Bayer::BGR => {},
            _ => {
                return Err(
                    VideoError::with_message(
                        VideoErrorKind::UnsupportedPixelFormat,
                        "pixel layout is not supported",
                    ),
                );
            },
        }
        let width = video.image_width();
        let height = video.image_height();
        assert(width * height <= 0xffff_ffff * 0xffff_ffff) by (nonlinear_arith)
            requires
                0 <= width <= 0xffff_ffff,
                0 <= height <= 0xffff_ffff,
        ;
        let count: u64 = (width as u64) * (height as u64);
        let len = bytes.len();
        if count > (len as u64) / 3 {
            return Err(
                VideoError::with_message(
                    VideoErrorKind::CorruptFrameData,
                    "frame data ends before the picture does",
                ),
            );
        }
        let count: usize = count as usize;
        let mut pixels: Vec<u8> = Vec::new();
        let mut done: usize = 0;
        while done < count
            invariant
                done <= count,
                count * 3 <= len == bytes@.len(),
                pixels@ == packed_pixels(bytes@, done as nat),
            decreases count - done,
        {
            let from = done * 3;
            pixels.push(bytes[from]);
            pixels.push(bytes[from + 1]);
            pixels.push(bytes[from + 2]);
            pixels.push(OPAQUE);
            done = done + 1;
            assert(pixels@ =~= packed_pixels(bytes@, done as nat));
        }
        Ok((width, height, pixels))
    }
}

// ---------------------------------------------------------------------
// Mosaic sampling
// ---------------------------------------------------------------------

/// The bytes from the start of one row of samples to the start of the next.
pub open spec fn row_stride(model: VideoModel) -> int {
    model.image_width * model.bytes_per_pixel
}

/// Where the two-by-two block at (`column`, `row`) starts in its frame.
pub open spec fn block_offset(model: VideoModel, column: int, row: int) -> int {
    2 * row * row_stride(model) + 2 * column * model.bytes_per_pixel
}

/// The bytes a frame must hold for every block to lie inside it.
pub open spec fn mosaic_extent(model: VideoModel) -> int {
    let columns = model.image_width / 2;
    let rows = model.image_height / 2;
    if columns == 0 || rows == 0 {
        0
    } else {
        block_offset(model, columns - 1, rows - 1) + row_stride(model) + 2 * sample_width(
            model.bytes_per_pixel,
        )
    }
}

/// The sample that lies `shift` bytes into the block at (`column`, `row`),
/// scaled to a byte.
pub open spec fn block_channel(
    model: VideoModel,
    frame: Seq<u8>,
    column: int,
    row: int,
    shift: int,
) -> u8 {
    normalized(
        sample_at(
            frame,
            block_offset(model, column, row) + shift,
            model.bytes_per_pixel,
            model.endianness,
        ),
        model.pixel_depth_bits,
    )
}

/// Byte `i` of the picture sampled from a mosaic frame. Each block of two
/// by two samples gives one pixel: blue from the lower right sample, green
/// from the upper right, red from the upper left.
pub open spec fn mosaic_byte(model: VideoModel, frame: Seq<u8>, i: int) -> u8 {
    let columns = model.image_width / 2;
    let column = (i / 4) % (columns as int);
    let row = (i / 4) / (columns as int);
    let across = sample_width(model.bytes_per_pixel);
    let down = row_stride(model);
    if i % 4 == 0 {
        block_channel(model, frame, column, row, down + across)
    } else if i % 4 == 1 {
        block_channel(model, frame, column, row, across)
    } else if i % 4 == 2 {
        block_channel(model, frame, column, row, 0)
    } else {
        OPAQUE
    }
}

/// The picture sampled from the first `blocks` blocks of a mosaic frame.
pub open spec fn mosaic_pixels(model: VideoModel, frame: Seq<u8>, blocks: nat) -> Seq<u8> {
    Seq::new(4 * blocks, |i: int| mosaic_byte(model, frame, i))
}

/// What decoding frame `index` by mosaic sampling comes to.
pub open spec fn mosaic_decode(model: VideoModel, index: usize) -> DecodeOutcome {
    if index >= model.frames.len() {
        Err(frame_index_failure())
    } else if mosaic_extent(model) > model.frames[index as int].len() {
        Err(corrupt_frame_failure())
    } else {
        Ok(
            Picture {
                width: model.image_width / 2,
                height: model.image_height / 2,
                pixels: mosaic_pixels(
                    model,
                    model.frames[index as int],
                    ((model.image_width / 2) * (model.image_height / 2)) as nat,
                ),
            },
        )
    }
}

/// Every block of the picture ends within the extent of its frame.
pub proof fn lemma_block_within_extent(model: VideoModel, column: int, row: int)
    requires
        0 <= column < model.image_width / 2,
        0 <= row < model.image_height / 2,
    ensures
        0 <= block_offset(model, column, row),
        block_offset(model, column, row) + row_stride(model) + 2 * sample_width(
            model.bytes_per_pixel,
        ) <= mosaic_extent(model),
        0 <= 2 * row * row_stride(model) <= mosaic_extent(model),
        0 <= 2 * column * model.bytes_per_pixel <= mosaic_extent(model),
        0 <= row_stride(model) <= mosaic_extent(model),
{
    let stride = row_stride(model);
    let pitch = model.bytes_per_pixel as int;
    let last_column = model.image_width / 2 - 1;
    let last_row = model.image_height / 2 - 1;
    assert(0 <= stride) by (nonlinear_arith)
        requires
            stride == model.image_width * model.bytes_per_pixel,
    ;
    assert(0 <= 2 * row * stride <= 2 * last_row * stride) by (nonlinear_arith)
        requires
            0 <= row <= last_row,
            0 <= stride,
    ;
    assert(0 <= 2 * column * pitch <= 2 * last_column * pitch) by (nonlinear_arith)
        requires
            0 <= column <= last_column,
            0 <= pitch,
    ;
}

/// A very simple decoder of mosaic frames that is easy to follow: it
/// samples, and does not interpolate.
pub struct DebayerCodec {}

impl ImageCodec for DebayerCodec {
    open spec fn decoded(&self, model: VideoModel, index: usize) -> DecodeOutcome {
        mosaic_decode(model, index)
    }

    /// Samples each block of two by two pixels into one pixel. The picture
    /// is half as wide and half as high as the video, a last odd column or
    /// row being left out.
    fn decode<V: Video>(&self, video: &V, frame_index: usize) -> (r: Decoded)
        ensures
            r matches Ok(picture) ==> picture.0 == video.model().image_width / 2 && picture.1
                == video.model().image_height / 2 && picture.2@.len() == picture.0 * picture.1 * 4,
    {
        let bytes = match video.get_frame(frame_index) {
            Ok(bytes) => bytes,
            Err(e) => {
                return Err(e);
            },
        };
        let ghost model = video.model();
        let ghost frame = bytes@;
        let bytes_per_pixel = video.bytes_per_pixel();
        let depth = video.pixel_depth_bits();
        let endianness = *video.endianness();
        let columns: u32 = video.image_width() / 2;
        let rows: u32 = video.image_height() / 2;
        let mut pixels: Vec<u8> = Vec::new();
        if columns == 0 || rows == 0 {
            assert(columns * rows == 0) by (nonlinear_arith)
                requires
                    columns == 0 || rows == 0,
            ;
            assert(pixels@ =~= mosaic_pixels(model, frame, 0));
            return Ok((columns, rows, pixels));
        }
        let across: usize = if bytes_per_pixel == 2 {
            2
        } else {
            1
        };
        let len = bytes.len();
        let width = video.image_width();
        assert(width * bytes_per_pixel <= 0xffff_ffff * 0xff) by (nonlinear_arith)
            requires
                0 <= width <= 0xffff_ffff,
                0 <= bytes_per_pixel <= 0xff,
        ;
        let wide_stride: u128 = (width as u128) * (bytes_per_pixel as u128);
        let above: u128 = 2 * ((rows - 1) as u128);
        let before: u128 = 2 * ((columns - 1) as u128);
        assert(above * wide_stride <= 0x2_0000_0000 * (0xffff_ffff * 0xff)) by (nonlinear_arith)
            requires
                0 <= above <= 0x2_0000_0000,
                0 <= wide_stride <= 0xffff_ffff * 0xff,
        ;
        assert(before * bytes_per_pixel <= 0x2_0000_0000 * 0xff) by (nonlinear_arith)
            requires
                0 <= before <= 0x2_0000_0000,
                0 <= bytes_per_pixel <= 0xff,
        ;
        let extent: u128 = above * wide_stride + before * (bytes_per_pixel as u128) + wide_stride
            + 2 * (across as u128);
        assert(extent == mosaic_extent(model)) by {
            assert(above * wide_stride == 2 * (rows - 1) * row_stride(model)) by (nonlinear_arith)
                requires
                    above == 2 * (rows - 1),
                    wide_stride == row_stride(model),
            ;
            assert(before * bytes_per_pixel == 2 * (columns - 1) * model.bytes_per_pixel)
                by (nonlinear_arith)
                requires
                    before == 2 * (columns - 1),
                    bytes_per_pixel == model.bytes_per_pixel,
            ;
        }
        if extent > len as u128 {
            return Err(
                VideoError::with_message(
                    VideoErrorKind::CorruptFrameData,
                    "frame data ends before the picture does",
                ),
            );
        }
        proof {
            lemma_block_within_extent(model, 0, 0);
        }
        let down: usize = wide_stride as usize;
        let pitch: usize = bytes_per_pixel as usize;
        let unit = scale_unit(depth);
        let mut row: u32 = 0;
        while row < rows
            invariant
                row <= rows,
                rows == model.image_height / 2,
                columns == model.image_width / 2,
                columns > 0,
                model == video.model(),
                frame == bytes@,
                len == frame.len(),
                mosaic_extent(model) <= len,
                down == row_stride(model),
                pitch == model.bytes_per_pixel == bytes_per_pixel,
                across == sample_width(model.bytes_per_pixel),
                depth == model.pixel_depth_bits,
                endianness == model.endianness,
                unit == crate::sample::scale_unit_of(depth),
                pixels@ == mosaic_pixels(model, frame, (row * columns) as nat),
            decreases rows - row,
        {
            let mut column: u32 = 0;
            while column < columns
                invariant
                    row < rows,
                    column <= columns,
                    rows == model.image_height / 2,
                    columns == model.image_width / 2,
                    columns > 0,
                    model == video.model(),
                    frame == bytes@,
                    len == frame.len(),
                    mosaic_extent(model) <= len,
                    down == row_stride(model),
                    pitch == model.bytes_per_pixel == bytes_per_pixel,
                    across == sample_width(model.bytes_per_pixel),
                    depth == model.pixel_depth_bits,
                    endianness == model.endianness,
                    unit == crate::sample::scale_unit_of(depth),
                    pixels@ == mosaic_pixels(model, frame, (row * columns + column) as nat),
                decreases columns - column,
            {
                proof {
                    lemma_block_within_extent(model, column as int, row as int);
                }
                let origin: usize = 2 * (row as usize) * down + 2 * (column as usize) * pitch;
                let red = sample_or_zero(bytes, origin, bytes_per_pixel, endianness);
                let green = sample_or_zero(bytes, origin + across, bytes_per_pixel, endianness);
                let blue = sample_or_zero(
                    bytes,
                    origin + down + across,
                    bytes_per_pixel,
                    endianness,
                );
                pixels.push(normalize_by(blue, depth, unit));
                pixels.push(normalize_by(green, depth, unit));
                pixels.push(normalize_by(red, depth, unit));
                pixels.push(OPAQUE);
                proof {
                    let block = row * columns + column;
                    lemma_fundamental_div_mod_converse(
                        block,
                        columns as int,
                        row as int,
                        column as int,
                    );
                    assert(pixels@ =~= mosaic_pixels(model, frame, (block + 1) as nat));
                }
                column = column + 1;
            }
            proof {
                assert((row + 1) * columns == row * columns + columns) by (nonlinear_arith);
            }
            row = row + 1;
        }
        proof {
            assert(rows * columns == columns * rows) by (nonlinear_arith);
            assert(columns * rows * 4 == 4 * (columns * rows)) by (nonlinear_arith);
        }
        Ok((columns, rows, pixels))
    }
}

/// The sample at `offset`, for an offset at which the frame holds one.
fn sample_or_zero(frame: &[u8], offset: usize, bytes_per_pixel: u8, endianness: Endianness) -> (r:
    u16)
    requires
        offset + sample_width(bytes_per_pixel) <= frame@.len(),
    ensures
        r == sample_at(frame@, offset as int, bytes_per_pixel, endianness),
{
    match read_sample(frame, offset, bytes_per_pixel, endianness) {
        Some(sample) => sample,
        None => 0,
    }
}

} // verus!
