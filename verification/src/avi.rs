//! The AVI flavour of RIFF: its headers and its index of frames.

use vstd::prelude::*;
use vstd::slice::slice_subrange;
use vstd::string::StringExecFns;
use crate::error::{outcome, AviError, Failure, VideoError, VideoErrorKind};
use crate::fourcc::{
    format_fourcc, fourcc_text, same_fourcc, FourCC, FOURCC_AVIH, FOURCC_FRAME, FOURCC_HDRL,
    FOURCC_MOVI, FOURCC_STRF, FOURCC_STRH, FOURCC_STRL,
};
use crate::le::{le_i32, le_u16, le_u32, le_u64, read_le_i32, read_le_u16, read_le_u32, read_le_u64};
use crate::riff::{
    lemma_list_entry_node, lemma_parsed_file_well_placed, malformed_failure, nodes_of, parse_file,
    read_entries, read_outcome, well_placed, ChunkMeta, Entry, ListMeta, Node, FILE_HEADER_SIZE,
};

verus! {

/// The least number of bytes that hold a main header.
pub const MAIN_HEADER_SIZE: usize = 44;

/// The least number of bytes that hold a stream header.
pub const STREAM_HEADER_SIZE: usize = 56;

/// The least number of bytes that a stream format takes.
pub const STREAM_FORMAT_RECORD_SIZE: usize = 40;

/// The least number of bytes that hold the header of a stream format
/// that is decoded here.
pub const STREAM_FORMAT_SIZE: usize = 48;

/// Where a stream format holds the number of bits for each pixel.
pub const BIT_COUNT_OFFSET: usize = 14;

/// What an entry of an AVI file holds.
#[derive(Debug)]
pub enum AviEntry {
    MainHeader(AviMainHeader),
    StreamHeader(AviStreamHeader),
    BitMapInfo(BitMapInfo),
    Frame(ChunkMeta),
    Unknown(ChunkMeta),
    List(Vec<AviEntry>),
}

/// The main header: what holds of the file as a whole.
#[derive(Debug, Clone, Copy)]
pub struct AviMainHeader {
    pub micro_sec_per_frame: u32,
    pub max_bytes_per_sec: u32,
    pub padding_granularity: u32,
    pub flags: u32,
    pub total_frames: u32,
    pub initial_frames: u32,
    pub streams: u32,
    pub suggested_buffer_size: u32,
    pub width: u32,
    pub height: u32,
    pub reserved: [u8; 4],
}

/// The header of one stream.
#[derive(Debug, Clone, Copy)]
pub struct AviStreamHeader {
    /// Stream type. Could be `auds`, `mids`, `txts`, `vids`.
    pub fcc_type: [u8; 4],
    pub fcc_handler: [u8; 4],
    pub flags: u32,
    pub priority: u16,
    pub language: u16,
    pub initial_frames: u32,
    pub scale: u32,
    pub rate: u32,
    pub start: u32,
    pub length: u32,
    pub suggested_buffer_size: u32,
    pub quality: u32,
    pub sample_size: u32,
    pub left: u16,
    pub top: u16,
    pub right: u16,
    pub bottom: u16,
}

/// The format of a video stream: its header, the layout of its pixels and
/// its colour table, which is empty for the pixels decoded here.
#[derive(Debug)]
pub struct BitMapInfo {
    pub header: BitMapInfoHeader,
    pub color_coding: ColorCoding,
    pub rgb: Vec<RgbQuad>,
}

/// How the bytes of a pixel are laid out.
#[derive(Debug, Clone, Copy, PartialEq, Eq, Structural)]
pub enum ColorCoding {
    BGR,
}

/// The fixed part of a stream format.
// https://docs.fileformat.com/image/dib/
#[derive(Debug, Clone, Copy, PartialEq, Eq, Structural)]
pub struct BitMapInfoHeader {
    /// Specifies the number of bytes required by the structure. This value does not include the
    /// size of the color table or the size of the color masks, if they are appended to the
    /// end of structure
    pub size: u32,
    /// Specifies the width of the bitmap, in pixels
    pub width: i32,
    /// Specifies the height of the bitmap, in pixels.
    /// For uncompressed RGB bitmaps, if biHeight is positive, the bitmap is a bottom-up DIB
    /// with the origin at the lower left corner. If biHeight is negative, the bitmap is a
    /// top-down DIB with the origin at the upper left corner.
    /// For YUV bitmaps, the bitmap is always top-down, regardless of the sign of biHeight. Decoders
    /// should offer YUV formats with positive biHeight, but for backward compatibility they
    /// should accept YUV formats with either positive or negative biHeight.
    /// For compressed formats, biHeight must be positive, regardless of image orientation.
    pub height: i32,
    /// Specifies the number of planes for the target device. This value must be set to 1
    pub planes: u16,
    /// Specifies the number of bits per pixel (bpp). For uncompressed formats, this value is
    /// the average number of bits per pixel. For compressed formats, this value is the implied
    /// bit depth of the uncompressed image, after the image has been decoded.
    pub bit_count: u16,
    pub compression: u32,
    pub size_image: u32,
    pub x_pels_per_meter: u64,
    pub y_pels_per_meter: u64,
    pub clr_used: u32,
    pub clr_important: u32,
}

/// One entry of a colour table.
#[derive(Debug, Clone, Copy, PartialEq, Eq, Structural)]
pub struct RgbQuad {
    pub blue: u8,
    pub green: u8,
    pub red: u8,
    pub reserved: u8,
}

/// The main header that the first 44 bytes of `payload` spell.
pub open spec fn main_header_of(payload: Seq<u8>) -> AviMainHeader {
    AviMainHeader {
        micro_sec_per_frame: le_u32(payload, 0),
        max_bytes_per_sec: le_u32(payload, 4),
        padding_granularity: le_u32(payload, 8),
        flags: le_u32(payload, 12),
        total_frames: le_u32(payload, 16),
        initial_frames: le_u32(payload, 20),
        streams: le_u32(payload, 24),
        suggested_buffer_size: le_u32(payload, 28),
        width: le_u32(payload, 32),
        height: le_u32(payload, 36),
        reserved: [payload[40], payload[41], payload[42], payload[43]],
    }
}

/// The stream header that the first 56 bytes of `payload` spell.
pub open spec fn stream_header_of(payload: Seq<u8>) -> AviStreamHeader {
    AviStreamHeader {
        fcc_type: [payload[0], payload[1], payload[2], payload[3]],
        fcc_handler: [payload[4], payload[5], payload[6], payload[7]],
        flags: le_u32(payload, 8),
        priority: le_u16(payload, 12),
        language: le_u16(payload, 14),
        initial_frames: le_u32(payload, 16),
        scale: le_u32(payload, 20),
        rate: le_u32(payload, 24),
        start: le_u32(payload, 28),
        length: le_u32(payload, 32),
        suggested_buffer_size: le_u32(payload, 36),
        quality: le_u32(payload, 40),
        sample_size: le_u32(payload, 44),
        left: le_u16(payload, 48),
        top: le_u16(payload, 50),
        right: le_u16(payload, 52),
        bottom: le_u16(payload, 54),
    }
}

/// The header of a stream format that the first 48 bytes of `payload`
/// spell.
pub open spec fn format_header_of(payload: Seq<u8>) -> BitMapInfoHeader {
    BitMapInfoHeader {
        size: le_u32(payload, 0),
        width: le_i32(payload, 4),
        height: le_i32(payload, 8),
        planes: le_u16(payload, 12),
        bit_count: le_u16(payload, BIT_COUNT_OFFSET as int),
        compression: le_u32(payload, 16),
        size_image: le_u32(payload, 20),
        x_pels_per_meter: le_u64(payload, 24),
        y_pels_per_meter: le_u64(payload, 32),
        clr_used: le_u32(payload, 40),
        clr_important: le_u32(payload, 44),
    }
}

/// Reads a main header from its first 44 bytes.
pub fn decode_main_header(payload: &[u8]) -> (header: AviMainHeader)
    requires
        payload@.len() >= MAIN_HEADER_SIZE,
    ensures
        header == main_header_of(payload@),
{
    AviMainHeader {
        micro_sec_per_frame: read_le_u32(payload, 0),
        max_bytes_per_sec: read_le_u32(payload, 4),
        padding_granularity: read_le_u32(payload, 8),
        flags: read_le_u32(payload, 12),
        total_frames: read_le_u32(payload, 16),
        initial_frames: read_le_u32(payload, 20),
        streams: read_le_u32(payload, 24),
        suggested_buffer_size: read_le_u32(payload, 28),
        width: read_le_u32(payload, 32),
        height: read_le_u32(payload, 36),
        reserved: [payload[40], payload[41], payload[42], payload[43]],
    }
}

/// Reads a stream header from its first 56 bytes.
pub fn decode_stream_header(payload: &[u8]) -> (header: AviStreamHeader)
    requires
        payload@.len() >= STREAM_HEADER_SIZE,
    ensures
        header == stream_header_of(payload@),
{
    AviStreamHeader {
        fcc_type: [payload[0], payload[1], payload[2], payload[3]],
        fcc_handler: [payload[4], payload[5], payload[6], payload[7]],
        flags: read_le_u32(payload, 8),
        priority: read_le_u16(payload, 12),
        language: read_le_u16(payload, 14),
        initial_frames: read_le_u32(payload, 16),
        scale: read_le_u32(payload, 20),
        rate: read_le_u32(payload, 24),
        start: read_le_u32(payload, 28),
        length: read_le_u32(payload, 32),
        suggested_buffer_size: read_le_u32(payload, 36),
        quality: read_le_u32(payload, 40),
        sample_size: read_le_u32(payload, 44),
        left: read_le_u16(payload, 48),
        top: read_le_u16(payload, 50),
        right: read_le_u16(payload, 52),
        bottom: read_le_u16(payload, 54),
    }
}

/// Reads the header of a stream format from its first 48 bytes.
pub fn decode_format_header(payload: &[u8]) -> (header: BitMapInfoHeader)
    requires
        payload@.len() >= STREAM_FORMAT_SIZE,
    ensures
        header == format_header_of(payload@),
{
    BitMapInfoHeader {
        size: read_le_u32(payload, 0),
        width: read_le_i32(payload, 4),
        height: read_le_i32(payload, 8),
        planes: read_le_u16(payload, 12),
        bit_count: read_le_u16(payload, BIT_COUNT_OFFSET),
        compression: read_le_u32(payload, 16),
        size_image: read_le_u32(payload, 20),
        x_pels_per_meter: read_le_u64(payload, 24),
        y_pels_per_meter: read_le_u64(payload, 32),
        clr_used: read_le_u32(payload, 40),
        clr_important: read_le_u32(payload, 44),
    }
}

// ---------------------------------------------------------------------
// Finding the mandatory entries
// ---------------------------------------------------------------------

/// Whether `node` is a list of the given type.
pub open spec fn is_list(node: Node, list_type: Seq<u8>) -> bool {
    node matches Node::List { list_type: found, .. } && found == list_type
}

/// Whether `node` is a chunk with the given id.
pub open spec fn is_chunk(node: Node, chunk_id: Seq<u8>) -> bool {
    node matches Node::Chunk { chunk_id: found, .. } && found == chunk_id
}

/// The first list of the given type at or after `from`.
pub open spec fn find_list_from(nodes: Seq<Node>, list_type: Seq<u8>, from: int) -> Option<Node>
    decreases nodes.len() - from,
{
    if from < 0 || from >= nodes.len() {
        None
    } else if is_list(nodes[from], list_type) {
        Some(nodes[from])
    } else {
        find_list_from(nodes, list_type, from + 1)
    }
}

/// The first list of the given type among `nodes`.
pub open spec fn find_list(nodes: Seq<Node>, list_type: Seq<u8>) -> Option<Node> {
    find_list_from(nodes, list_type, 0)
}

/// The first chunk with the given id at or after `from`.
pub open spec fn find_chunk_from(nodes: Seq<Node>, chunk_id: Seq<u8>, from: int) -> Option<Node>
    decreases nodes.len() - from,
{
    if from < 0 || from >= nodes.len() {
        None
    } else if is_chunk(nodes[from], chunk_id) {
        Some(nodes[from])
    } else {
        find_chunk_from(nodes, chunk_id, from + 1)
    }
}

/// The first chunk with the given id among `nodes`.
pub open spec fn find_chunk(nodes: Seq<Node>, chunk_id: Seq<u8>) -> Option<Node> {
    find_chunk_from(nodes, chunk_id, 0)
}

/// The failure of finding a list at the top of the file.
pub open spec fn missing_top_list_failure(list_type: Seq<u8>) -> Failure {
    Failure {
        kind: VideoErrorKind::MissingMandatoryList,
        message: "AVI file is missing mandatory list '"@ + fourcc_text(list_type) + "'"@,
    }
}

/// The failure of finding a list within the list `parent`.
pub open spec fn missing_list_failure(parent: Seq<u8>, list_type: Seq<u8>) -> Failure {
    Failure {
        kind: VideoErrorKind::MissingMandatoryList,
        message: "List '"@ + fourcc_text(parent) + "' is missing mandatory list '"@ + fourcc_text(
            list_type,
        ) + "'"@,
    }
}

/// The failure of finding a chunk within the list `parent`.
pub open spec fn missing_chunk_failure(parent: Seq<u8>, chunk_id: Seq<u8>) -> Failure {
    Failure {
        kind: VideoErrorKind::MissingMandatoryChunk,
        message: "List '"@ + fourcc_text(parent) + "' is missing mandatory chunk '"@ + fourcc_text(
            chunk_id,
        ) + "'"@,
    }
}

/// What a search for a list found, as the contracts see it.
pub open spec fn found_list(result: Result<&ListMeta, VideoError>) -> Result<Node, Failure> {
    match result {
        Ok(meta) => Ok(meta.node()),
        Err(e) => Err(e@),
    }
}

/// What a search for a chunk found, as the contracts see it.
pub open spec fn found_chunk(result: Result<&ChunkMeta, VideoError>) -> Result<Node, Failure> {
    match result {
        Ok(meta) => Ok(meta.node()),
        Err(e) => Err(e@),
    }
}

/// The outcome of a search that must find something.
pub open spec fn or_failure(found: Option<Node>, failure: Failure) -> Result<Node, Failure> {
    match found {
        Some(node) => Ok(node),
        None => Err(failure),
    }
}

fn find_list_entry<'a>(entries: &'a [Entry], list_type: FourCC) -> (r: Option<&'a ListMeta>)
    ensures
        match r {
            Some(meta) => find_list(nodes_of(entries@), list_type@) == Some(meta.node()),
            None => find_list(nodes_of(entries@), list_type@) is None,
        },
{
    let mut i: usize = 0;
    while i < entries.len()
        invariant
            i <= entries@.len(),
            find_list(nodes_of(entries@), list_type@) == find_list_from(
                nodes_of(entries@),
                list_type@,
                i as int,
            ),
        decreases entries@.len() - i,
    {
        match &entries[i] {
            Entry::List(meta) => {
                proof {
                    lemma_list_entry_node(*meta);
                }
                if same_fourcc(&meta.list_type, &list_type) {
                    return Some(meta);
                }
            },
            Entry::Chunk(_) => {},
        }
        i = i + 1;
    }
    None
}

/// Finds the first list of the given type at the top of the file.
pub fn find_mandatory_list<'a>(entries: &'a [Entry], list_type: FourCC) -> (r: Result<
    &'a ListMeta,
    VideoError,
>)
    ensures
        found_list(r) == or_failure(
            find_list(nodes_of(entries@), list_type@),
            missing_top_list_failure(list_type@),
        ),
{
    match find_list_entry(entries, list_type) {
        Some(meta) => Ok(meta),
        None => {
            let mut message = String::from_str("AVI file is missing mandatory list '");
            message.append(format_fourcc(list_type).as_str());
            message.append("'");
            Err(VideoError::new(VideoErrorKind::MissingMandatoryList, AviError::new(message)))
        },
    }
}

/// Finds the first list of the given type among the children of `parent`.
pub fn find_mandatory_list_in_list<'a>(parent: &'a ListMeta, list_type: FourCC) -> (r: Result<
    &'a ListMeta,
    VideoError,
>)
    ensures
        found_list(r) == or_failure(
            find_list(nodes_of(parent.children@), list_type@),
            missing_list_failure(parent.list_type@, list_type@),
        ),
{
    match find_list_entry(parent.children.as_slice(), list_type) {
        Some(meta) => Ok(meta),
        None => {
            let mut message = String::from_str("List '");
            message.append(format_fourcc(parent.list_type).as_str());
            message.append("' is missing mandatory list '");
            message.append(format_fourcc(list_type).as_str());
            message.append("'");
            Err(VideoError::new(VideoErrorKind::MissingMandatoryList, AviError::new(message)))
        },
    }
}

/// Finds the first chunk with the given id among the children of `meta`.
pub fn find_mandatory_chunk<'a>(meta: &'a ListMeta, chunk_id: FourCC) -> (r: Result<
    &'a ChunkMeta,
    VideoError,
>)
    ensures
        found_chunk(r) == or_failure(
            find_chunk(nodes_of(meta.children@), chunk_id@),
            missing_chunk_failure(meta.list_type@, chunk_id@),
        ),
{
    let entries = meta.children.as_slice();
    let mut i: usize = 0;
    while i < entries.len()
        invariant
            i <= entries@.len(),
            entries@ == meta.children@,
            find_chunk(nodes_of(entries@), chunk_id@) == find_chunk_from(
                nodes_of(entries@),
                chunk_id@,
                i as int,
            ),
        decreases entries@.len() - i,
    {
        match &entries[i] {
            Entry::Chunk(chunk) => {
                if same_fourcc(&chunk.chunk_id, &chunk_id) {
                    return Ok(chunk);
                }
            },
            Entry::List(list) => {
                proof {
                    lemma_list_entry_node(*list);
                }
            },
        }
        i = i + 1;
    }
    let mut message = String::from_str("List '");
    message.append(format_fourcc(meta.list_type).as_str());
    message.append("' is missing mandatory chunk '");
    message.append(format_fourcc(chunk_id).as_str());
    message.append("'");
    Err(VideoError::new(VideoErrorKind::MissingMandatoryChunk, AviError::new(message)))
}

// ---------------------------------------------------------------------
// Reading the headers out of their chunks
// ---------------------------------------------------------------------

/// The declared bytes of a chunk, if they all lie within the file.
pub open spec fn payload_of(bytes: Seq<u8>, chunk: Node) -> Option<Seq<u8>> {
    match chunk {
        Node::Chunk { data_offset, chunk_size, .. } => if 0 <= data_offset && 0 <= chunk_size
            && data_offset + chunk_size <= bytes.len() {
            Some(bytes.subrange(data_offset, data_offset + chunk_size))
        } else {
            None
        },
        Node::List { .. } => None,
    }
}

/// The failure of reading a header from a chunk that does not hold one.
pub open spec fn short_header_failure() -> Failure {
    Failure {
        kind: VideoErrorKind::MalformedContainer,
        message: "chunk is too short for its header"@,
    }
}

/// The bytes of a header: the payload of `chunk`, which has to hold
/// `least` bytes or more.
pub open spec fn header_payload(bytes: Seq<u8>, chunk: Node, least: int) -> Result<
    Seq<u8>,
    Failure,
> {
    match payload_of(bytes, chunk) {
        Some(payload) => if payload.len() >= least {
            Ok(payload)
        } else {
            Err(short_header_failure())
        },
        None => Err(short_header_failure()),
    }
}

/// The main header held by `chunk`.
pub open spec fn main_header_in(bytes: Seq<u8>, chunk: Node) -> Result<AviMainHeader, Failure> {
    match header_payload(bytes, chunk, MAIN_HEADER_SIZE as int) {
        Ok(payload) => Ok(main_header_of(payload)),
        Err(failure) => Err(failure),
    }
}

/// The stream header held by `chunk`.
pub open spec fn stream_header_in(bytes: Seq<u8>, chunk: Node) -> Result<AviStreamHeader, Failure> {
    match header_payload(bytes, chunk, STREAM_HEADER_SIZE as int) {
        Ok(payload) => Ok(stream_header_of(payload)),
        Err(failure) => Err(failure),
    }
}

/// A stream format as the contracts see it.
pub struct BitMapInfoModel {
    pub header: BitMapInfoHeader,
    pub color_coding: ColorCoding,
    pub rgb: Seq<RgbQuad>,
}

impl View for BitMapInfo {
    type V = BitMapInfoModel;

    open spec fn view(&self) -> BitMapInfoModel {
        BitMapInfoModel { header: self.header, color_coding: self.color_coding, rgb: self.rgb@ }
    }
}

/// Why pixels of the given depth are not decoded.
pub open spec fn unsupported_depth_text(bit_count: u16) -> Seq<char> {
    if bit_count == 0 {
        "JPG and PNG are not supported"@
    } else if bit_count == 1 {
        "Monochrome images are not supported"@
    } else if bit_count == 4 {
        "16-color images are not supported"@
    } else if bit_count == 8 {
        "256-color images are not supported"@
    } else if bit_count == 16 {
        "16-bit images are not supported"@
    } else {
        "32-bit images are not supported"@
    }
}

/// How pixels of the given depth are laid out: 24 bits are blue, green and
/// red; the other depths that the format knows are not decoded here; any
/// other depth has no meaning.
pub open spec fn color_coding_of(bit_count: u16) -> Result<ColorCoding, Failure> {
    if bit_count == 24 {
        Ok(ColorCoding::BGR)
    } else if bit_count == 0 || bit_count == 1 || bit_count == 4 || bit_count == 8 || bit_count
        == 16 || bit_count == 32 {
        Err(
            Failure {
                kind: VideoErrorKind::UnsupportedPixelFormat,
                message: unsupported_depth_text(bit_count),
            },
        )
    } else {
        Err(Failure { kind: VideoErrorKind::InvalidPixelFormat, message: "Invalid bit_count"@ })
    }
}

/// The stream format held by `chunk`. A format takes 40 bytes or more and
/// tells the depth of its pixels; one that is decoded here takes 48.
pub open spec fn stream_format_in(bytes: Seq<u8>, chunk: Node) -> Result<BitMapInfoModel, Failure> {
    match header_payload(bytes, chunk, STREAM_FORMAT_RECORD_SIZE as int) {
        Ok(payload) => match color_coding_of(le_u16(payload, BIT_COUNT_OFFSET as int)) {
            Ok(color_coding) => if payload.len() >= STREAM_FORMAT_SIZE {
                Ok(
                    BitMapInfoModel {
                        header: format_header_of(payload),
                        color_coding,
                        rgb: Seq::empty(),
                    },
                )
            } else {
                Err(short_header_failure())
            },
            Err(failure) => Err(failure),
        },
        Err(failure) => Err(failure),
    }
}

/// The bytes that were read, as the contracts see them.
pub open spec fn payload_read(result: Option<&[u8]>) -> Option<Seq<u8>> {
    match result {
        Some(payload) => Some(payload@),
        None => None,
    }
}

/// The declared bytes of a chunk, if they all lie within `bytes`.
pub fn chunk_bytes<'a>(bytes: &'a [u8], chunk: &ChunkMeta) -> (r: Option<&'a [u8]>)
    ensures
        payload_read(r) == payload_of(bytes@, chunk.node()),
{
    let len = bytes.len();
    if chunk.data_offset <= len && chunk.chunk_size <= len - chunk.data_offset {
        Some(slice_subrange(bytes, chunk.data_offset, chunk.data_offset + chunk.chunk_size))
    } else {
        None
    }
}

/// The bytes of a header that were read, as the contracts see them.
pub open spec fn header_bytes_read(result: Result<&[u8], VideoError>) -> Result<Seq<u8>, Failure> {
    match result {
        Ok(payload) => Ok(payload@),
        Err(e) => Err(e@),
    }
}

fn header_bytes<'a>(bytes: &'a [u8], chunk: &ChunkMeta, least: usize) -> (r: Result<
    &'a [u8],
    VideoError,
>)
    ensures
        header_bytes_read(r) == header_payload(bytes@, chunk.node(), least as int),
{
    match chunk_bytes(bytes, chunk) {
        Some(payload) => {
            if payload.len() >= least {
                return Ok(payload);
            }
        },
        None => {},
    }
    Err(
        VideoError::with_message(
            VideoErrorKind::MalformedContainer,
            "chunk is too short for its header",
        ),
    )
}

/// Reads the main header out of its chunk in the file `bytes`.
pub fn parse_main_header(bytes: &[u8], chunk: &ChunkMeta) -> (r: Result<AviMainHeader, VideoError>)
    ensures
        outcome(r) == main_header_in(bytes@, chunk.node()),
{
    match header_bytes(bytes, chunk, MAIN_HEADER_SIZE) {
        Ok(payload) => Ok(decode_main_header(payload)),
        Err(e) => Err(e),
    }
}

/// Reads the stream header out of its chunk in the file `bytes`.
pub fn parse_stream_header(bytes: &[u8], chunk: &ChunkMeta) -> (r: Result<
    AviStreamHeader,
    VideoError,
>)
    ensures
        outcome(r) == stream_header_in(bytes@, chunk.node()),
{
    match header_bytes(bytes, chunk, STREAM_HEADER_SIZE) {
        Ok(payload) => Ok(decode_stream_header(payload)),
        Err(e) => Err(e),
    }
}

/// Tells how pixels of the given depth are laid out, or why they are not
/// decoded.
pub fn color_coding(bit_count: u16) -> (r: Result<ColorCoding, VideoError>)
    ensures
        outcome(r) == color_coding_of(bit_count),
{
    // https://docs.microsoft.com/en-us/previous-versions/dd183376(v=vs.85)
    let reason = if bit_count == 24 {
        // Each 3-byte triplet in the bitmap array represents the relative
        // intensities of blue, green, and red, respectively, for a pixel.
        return Ok(ColorCoding::BGR);
    } else if bit_count == 0 {
        // The number of bits-per-pixel is specified or is implied by the
        // JPEG or PNG format.
        "JPG and PNG are not supported"
    } else if bit_count == 1 {
        // The bitmap is monochrome, and the color table contains two
        // entries. Each bit in the bitmap array represents a pixel.
        "Monochrome images are not supported"
    } else if bit_count == 4 {
        // The bitmap has a maximum of 16 colors. Each pixel in the bitmap
        // is represented by a 4-bit index into the color table.
        "16-color images are not supported"
    } else if bit_count == 8 {
        // The bitmap has a maximum of 256 colors. Each byte in the array
        // represents a single pixel.
        "256-color images are not supported"
    } else if bit_count == 16 {
        // The bitmap has a maximum of 2^16 colors. Each WORD in the bitmap
        // array represents a single pixel, either in five bits for each
        // color component or through three color masks.
        "16-bit images are not supported"
    } else if bit_count == 32 {
        // The bitmap has a maximum of 2^32 colors. Each DWORD in the
        // bitmap array represents a single pixel, either in eight bits for
        // each color component or through three color masks.
        "32-bit images are not supported"
    } else {
        return Err(
            VideoError::with_message(VideoErrorKind::InvalidPixelFormat, "Invalid bit_count"),
        );
    };
    Err(VideoError::with_message(VideoErrorKind::UnsupportedPixelFormat, reason))
}

/// The stream format that was read, as the contracts see it.
pub open spec fn format_read(result: Result<BitMapInfo, VideoError>) -> Result<
    BitMapInfoModel,
    Failure,
> {
    match result {
        Ok(format) => Ok(format@),
        Err(e) => Err(e@),
    }
}

/// Reads the stream format out of its chunk in the file `bytes`.
pub fn parse_stream_format(bytes: &[u8], chunk: &ChunkMeta) -> (r: Result<BitMapInfo, VideoError>)
    ensures
        format_read(r) == stream_format_in(bytes@, chunk.node()),
{
    let payload = match header_bytes(bytes, chunk, STREAM_FORMAT_RECORD_SIZE) {
        Ok(payload) => payload,
        Err(e) => {
            return Err(e);
        },
    };
    let color_coding = match color_coding(read_le_u16(payload, BIT_COUNT_OFFSET)) {
        Ok(color_coding) => color_coding,
        Err(e) => {
            return Err(e);
        },
    };
    if payload.len() < STREAM_FORMAT_SIZE {
        return Err(
            VideoError::with_message(
                VideoErrorKind::MalformedContainer,
                "chunk is too short for its header",
            ),
        );
    }
    let header = decode_format_header(payload);
    Ok(BitMapInfo { header, color_coding, rgb: Vec::new() })
}

// ---------------------------------------------------------------------
// The index of frames
// ---------------------------------------------------------------------

/// Whether `node` is the payload of a video frame.
pub open spec fn is_frame(node: Node) -> bool {
    is_chunk(node, FOURCC_FRAME@)
}

/// The frame payloads among `children`, in file order.
pub open spec fn frame_nodes(children: Seq<Node>) -> Seq<Node> {
    children.filter(|node: Node| is_frame(node))
}

/// The chunks as the contracts see them.
pub open spec fn chunk_nodes(chunks: Seq<ChunkMeta>) -> Seq<Node> {
    Seq::new(chunks.len(), |i: int| chunks[i].node())
}

/// Whether the declared bytes of every frame lie within the file.
pub open spec fn frames_within(frames: Seq<Node>, bytes: Seq<u8>) -> bool {
    forall|i: int| 0 <= i < frames.len() ==> (#[trigger] payload_of(bytes, frames[i])) is Some
}

/// Builds the index of frames: the children of `movi` that are frame
/// payloads, in file order. Whatever else lies among them is passed over.
pub fn frame_index(movi: &ListMeta) -> (frames: Vec<ChunkMeta>)
    ensures
        chunk_nodes(frames@) == frame_nodes(nodes_of(movi.children@)),
{
    let children = movi.children.as_slice();
    let ghost nodes = nodes_of(children@);
    let mut frames: Vec<ChunkMeta> = Vec::new();
    let mut i: usize = 0;
    proof {
        reveal(Seq::filter);
        assert(chunk_nodes(frames@) =~= frame_nodes(nodes.take(0)));
    }
    while i < children.len()
        invariant
            i <= children@.len(),
            children@ == movi.children@,
            nodes == nodes_of(children@),
            chunk_nodes(frames@) == frame_nodes(nodes.take(i as int)),
        decreases children@.len() - i,
    {
        let ghost before = chunk_nodes(frames@);
        proof {
            reveal(Seq::filter);
            assert(nodes.take(i + 1).drop_last() =~= nodes.take(i as int));
            assert(nodes.take(i + 1).last() == nodes[i as int]);
        }
        match &children[i] {
            Entry::Chunk(chunk) => {
                if same_fourcc(&chunk.chunk_id, &FOURCC_FRAME) {
                    frames.push(*chunk);
                    assert(chunk_nodes(frames@) =~= before.push(chunk.node()));
                }
            },
            Entry::List(list) => {
                proof {
                    lemma_list_entry_node(*list);
                }
            },
        }
        i = i + 1;
    }
    assert(nodes.take(i as int) =~= nodes);
    frames
}

/// Whether the declared bytes of every frame lie within a file of `len`
/// bytes.
fn frames_fit(frames: &Vec<ChunkMeta>, bytes: &[u8]) -> (fit: bool)
    ensures
        fit == frames_within(chunk_nodes(frames@), bytes@),
{
    let mut i: usize = 0;
    while i < frames.len()
        invariant
            i <= frames@.len(),
            forall|k: int|
                0 <= k < i ==> (#[trigger] payload_of(bytes@, chunk_nodes(frames@)[k])) is Some,
        decreases frames@.len() - i,
    {
        if chunk_bytes(bytes, &frames[i]).is_none() {
            assert(payload_of(bytes@, chunk_nodes(frames@)[i as int]) is None);
            return false;
        }
        i = i + 1;
    }
    true
}

// ---------------------------------------------------------------------
// The opened file
// ---------------------------------------------------------------------

/// An opened file as the contracts see it.
pub struct AviModel {
    pub main_header: AviMainHeader,
    pub stream_header: AviStreamHeader,
    pub stream_format: BitMapInfoModel,
    /// The frame payloads, in file order.
    pub frames: Seq<Node>,
    /// The whole file.
    pub bytes: Seq<u8>,
}

/// The headers of an opened file.
pub struct Headers {
    pub main_header: AviMainHeader,
    pub stream_header: AviStreamHeader,
    pub stream_format: BitMapInfoModel,
}

/// The headers of the one stream that `strl` describes, after the main
/// header was read.
pub open spec fn stream_headers_in(
    main_header: AviMainHeader,
    strl: Seq<Node>,
    bytes: Seq<u8>,
) -> Result<Headers, Failure> {
    match find_chunk(strl, FOURCC_STRH@) {
        None => Err(missing_chunk_failure(FOURCC_STRL@, FOURCC_STRH@)),
        Some(strh) => match find_chunk(strl, FOURCC_STRF@) {
            None => Err(missing_chunk_failure(FOURCC_STRL@, FOURCC_STRF@)),
            Some(strf) => match stream_header_in(bytes, strh) {
                Err(failure) => Err(failure),
                Ok(stream_header) => match stream_format_in(bytes, strf) {
                    Err(failure) => Err(failure),
                    Ok(stream_format) => Ok(Headers { main_header, stream_header, stream_format }),
                },
            },
        },
    }
}

/// The headers that the children of `hdrl` hold: the main header, then
/// those of the first stream.
pub open spec fn headers_in(hdrl: Seq<Node>, bytes: Seq<u8>) -> Result<Headers, Failure> {
    match find_chunk(hdrl, FOURCC_AVIH@) {
        None => Err(missing_chunk_failure(FOURCC_HDRL@, FOURCC_AVIH@)),
        Some(avih) => match main_header_in(bytes, avih) {
            Err(failure) => Err(failure),
            Ok(main_header) => match find_list(hdrl, FOURCC_STRL@) {
                None => Err(missing_list_failure(FOURCC_HDRL@, FOURCC_STRL@)),
                Some(strl) => stream_headers_in(main_header, strl->children, bytes),
            },
        },
    }
}

/// What the entries of a file come to: its headers and the index of its
/// frames, or the first thing found wrong. The headers are looked for
/// first, the list of frames last.
pub open spec fn extract(nodes: Seq<Node>, bytes: Seq<u8>) -> Result<AviModel, Failure> {
    match find_list(nodes, FOURCC_HDRL@) {
        None => Err(missing_top_list_failure(FOURCC_HDRL@)),
        Some(hdrl) => match headers_in(hdrl->children, bytes) {
            Err(failure) => Err(failure),
            Ok(headers) => match find_list(nodes, FOURCC_MOVI@) {
                None => Err(missing_top_list_failure(FOURCC_MOVI@)),
                Some(movi) => if frames_within(frame_nodes(movi->children), bytes) {
                    Ok(
                        AviModel {
                            main_header: headers.main_header,
                            stream_header: headers.stream_header,
                            stream_format: headers.stream_format,
                            frames: frame_nodes(movi->children),
                            bytes,
                        },
                    )
                } else {
                    Err(malformed_failure())
                },
            },
        },
    }
}

/// What opening a file of the given bytes comes to.
pub open spec fn open_outcome(bytes: Seq<u8>) -> Result<AviModel, Failure> {
    match read_outcome(bytes) {
        Ok(nodes) => extract(nodes, bytes),
        Err(failure) => Err(failure),
    }
}

/// The headers as the contracts see them.
pub open spec fn headers_read(
    result: Result<(AviMainHeader, AviStreamHeader, BitMapInfo), VideoError>,
) -> Result<Headers, Failure> {
    match result {
        Ok((main_header, stream_header, stream_format)) => Ok(
            Headers { main_header, stream_header, stream_format: stream_format@ },
        ),
        Err(e) => Err(e@),
    }
}

/// Reads the headers of the one stream that `strl` describes.
fn read_stream_headers(main_header: AviMainHeader, strl: &ListMeta, bytes: &[u8]) -> (r: Result<
    (AviMainHeader, AviStreamHeader, BitMapInfo),
    VideoError,
>)
    requires
        strl.list_type@ == FOURCC_STRL@,
    ensures
        headers_read(r) == stream_headers_in(main_header, nodes_of(strl.children@), bytes@),
{
    let strh = match find_mandatory_chunk(strl, FOURCC_STRH) {
        Ok(strh) => strh,
        Err(e) => {
            return Err(e);
        },
    };
    let strf = match find_mandatory_chunk(strl, FOURCC_STRF) {
        Ok(strf) => strf,
        Err(e) => {
            return Err(e);
        },
    };
    let stream_header = match parse_stream_header(bytes, strh) {
        Ok(header) => header,
        Err(e) => {
            return Err(e);
        },
    };
    let stream_format = match parse_stream_format(bytes, strf) {
        Ok(format) => format,
        Err(e) => {
            return Err(e);
        },
    };
    Ok((main_header, stream_header, stream_format))
}

/// Reads the headers that `hdrl` holds: the main header, then those of
/// the first stream (only one stream is supported).
fn read_headers(hdrl: &ListMeta, bytes: &[u8]) -> (r: Result<
    (AviMainHeader, AviStreamHeader, BitMapInfo),
    VideoError,
>)
    requires
        hdrl.list_type@ == FOURCC_HDRL@,
    ensures
        headers_read(r) == headers_in(nodes_of(hdrl.children@), bytes@),
{
    let chunk = match find_mandatory_chunk(hdrl, FOURCC_AVIH) {
        Ok(chunk) => chunk,
        Err(e) => {
            return Err(e);
        },
    };
    let main_header = match parse_main_header(bytes, chunk) {
        Ok(header) => header,
        Err(e) => {
            return Err(e);
        },
    };
    let strl = match find_mandatory_list_in_list(hdrl, FOURCC_STRL) {
        Ok(strl) => strl,
        Err(e) => {
            return Err(e);
        },
    };
    proof {
        lemma_found_list_is_list(nodes_of(hdrl.children@), FOURCC_STRL@, 0);
    }
    read_stream_headers(main_header, strl, bytes)
}

/// A list that was found is one of the entries, and a list of the type
/// that was looked for.
pub proof fn lemma_found_list_is_list(nodes: Seq<Node>, list_type: Seq<u8>, from: int)
    requires
        0 <= from,
    ensures
        find_list_from(nodes, list_type, from) matches Some(node) ==> is_list(node, list_type)
            && nodes.contains(node),
    decreases nodes.len() - from,
{
    if from < nodes.len() && !is_list(nodes[from], list_type) {
        lemma_found_list_is_list(nodes, list_type, from + 1);
    }
}

/// In a well-formed container the bytes of every frame lie within the
/// file: no frame of the list found under `list_type` is out of reach.
pub proof fn lemma_parsed_frames_fit(bytes: Seq<u8>, list_type: Seq<u8>)
    ensures
        parse_file(bytes) matches Some(nodes) ==> (find_list(nodes, list_type) matches Some(list)
            ==> frames_within(frame_nodes(list->children), bytes)),
{
    if let Some(nodes) = parse_file(bytes) {
        if let Some(list) = find_list(nodes, list_type) {
            lemma_parsed_file_well_placed(bytes);
            lemma_found_list_is_list(nodes, list_type, 0);
            let k = choose|k: int| 0 <= k < nodes.len() && nodes[k] == list;
            assert(well_placed(nodes[k], FILE_HEADER_SIZE as int, bytes.len() as int));
            let children = list->children;
            let frames = frame_nodes(children);
            assert forall|i: int| 0 <= i < frames.len() implies (#[trigger] payload_of(
                bytes,
                frames[i],
            )) is Some by {
                children.lemma_filter_pred(|node: Node| is_frame(node), i);
                assert(frames.contains(frames[i]));
                children.lemma_filter_contains_rev(|node: Node| is_frame(node), frames[i]);
                let c = choose|c: int| 0 <= c < children.len() && children[c] == frames[i];
                assert(well_placed(
                    children[c],
                    list->List_data_offset,
                    list->List_data_offset + list->List_data_size,
                ));
            }
        }
    }
}

/// An AVI file held in memory, with its headers and the index of its
/// frames.
pub struct AviFile {
    bytes: Vec<u8>,
    main_header: AviMainHeader,
    stream_header: AviStreamHeader,
    stream_format: BitMapInfo,
    /// chunk meta for the image frames
    frames: Vec<ChunkMeta>,
}

/// What opening came to, as the contracts see it.
pub open spec fn opened(result: Result<AviFile, VideoError>) -> Result<AviModel, Failure> {
    match result {
        Ok(file) => Ok(file@),
        Err(e) => Err(e@),
    }
}

impl View for AviFile {
    type V = AviModel;

    closed spec fn view(&self) -> AviModel {
        AviModel {
            main_header: self.main_header,
            stream_header: self.stream_header,
            stream_format: self.stream_format@,
            frames: chunk_nodes(self.frames@),
            bytes: self.bytes@,
        }
    }
}

impl AviFile {
    #[verifier::type_invariant]
    spec fn well_formed(self) -> bool {
        &&& frames_within(chunk_nodes(self.frames@), self.bytes@)
        &&& self.stream_format.header.bit_count == 24
    }

    /// Opens the file whose bytes are given: reads its entries, then its
    /// headers and the index of its frames.
    pub fn open(bytes: Vec<u8>) -> (r: Result<Self, VideoError>)
        ensures
            opened(r) == open_outcome(bytes@),
    {
        let result = read_entries(bytes.as_slice());
        match result {
            Ok(entries) => Self::from_entries(entries.as_slice(), bytes),
            Err(e) => Err(e),
        }
    }

    /// Opens the file whose bytes and entries are given: reads its headers
    /// and the index of its frames.
    pub fn from_entries(entries: &[Entry], bytes: Vec<u8>) -> (r: Result<Self, VideoError>)
        ensures
            opened(r) == extract(nodes_of(entries@), bytes@),
    {
        // main header
        let hdrl = match find_mandatory_list(entries, FOURCC_HDRL) {
            Ok(hdrl) => hdrl,
            Err(e) => {
                return Err(e);
            },
        };
        proof {
            lemma_found_list_is_list(nodes_of(entries@), FOURCC_HDRL@, 0);
        }
        let (main_header, stream_header, stream_format) = match read_headers(
            hdrl,
            bytes.as_slice(),
        ) {
            Ok(headers) => headers,
            Err(e) => {
                return Err(e);
            },
        };
        // video frames
        let movi = match find_mandatory_list(entries, FOURCC_MOVI) {
            Ok(movi) => movi,
            Err(e) => {
                return Err(e);
            },
        };
        let frames = frame_index(movi);
        if !frames_fit(&frames, bytes.as_slice()) {
            return Err(
                VideoError::with_message(
                    VideoErrorKind::MalformedContainer,
                    "RIFF container is malformed",
                ),
            );
        }
        Ok(Self { bytes, main_header, stream_header, stream_format, frames })
    }

    /// The main header of the file.
    pub fn main_header(&self) -> (header: &AviMainHeader)
        ensures
            *header == self@.main_header,
    {
        &self.main_header
    }

    /// The header of its first stream.
    pub fn stream_header(&self) -> (header: &AviStreamHeader)
        ensures
            *header == self@.stream_header,
    {
        &self.stream_header
    }

    /// The format of its first stream: always one of 24 bits for each
    /// pixel.
    pub fn stream_format(&self) -> (format: &BitMapInfo)
        ensures
            format@ == self@.stream_format,
            format.header.bit_count == 24,
    {
        proof {
            use_type_invariant(self);
        }
        &self.stream_format
    }

    /// The index of frames, in file order. The bytes of each lie within
    /// the file.
    pub fn frames(&self) -> (frames: &[ChunkMeta])
        ensures
            chunk_nodes(frames@) == self@.frames,
            frames_within(self@.frames, self@.bytes),
    {
        proof {
            use_type_invariant(self);
        }
        self.frames.as_slice()
    }

    /// The declared bytes of a chunk, if they all lie within the file.
    pub fn read_bytes(&self, chunk_meta: &ChunkMeta) -> (r: Option<&[u8]>)
        ensures
            payload_read(r) == payload_of(self@.bytes, chunk_meta.node()),
    {
        chunk_bytes(self.bytes.as_slice(), chunk_meta)
    }
}

} // verus!
