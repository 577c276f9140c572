use astro_video_player::avi::{
    color_coding, find_mandatory_chunk, find_mandatory_list, find_mandatory_list_in_list,
    frame_index, parse_main_header, parse_stream_format, parse_stream_header, AviFile, ColorCoding,
};
use astro_video_player::error::{AviError, VideoError, VideoErrorKind};
use astro_video_player::riff::{read_entries, ChunkMeta, Entry};
use astro_video_player::video_format::{AviVideo, Bayer, Endianness, Video};

fn chunk(id: &[u8; 4], payload: &[u8]) -> Vec<u8> {
    let mut out = Vec::new();
    out.extend_from_slice(id);
    out.extend_from_slice(&(payload.len() as u32).to_le_bytes());
    out.extend_from_slice(payload);
    if payload.len() % 2 == 1 {
        out.push(0);
    }
    out
}

fn list(list_type: &[u8; 4], children: &[Vec<u8>]) -> Vec<u8> {
    let body: usize = children.iter().map(|c| c.len()).sum();
    let mut out = Vec::new();
    out.extend_from_slice(b"LIST");
    out.extend_from_slice(&(4 + body as u32).to_le_bytes());
    out.extend_from_slice(list_type);
    for child in children {
        out.extend_from_slice(child);
    }
    out
}

fn riff(children: &[Vec<u8>]) -> Vec<u8> {
    let body: usize = children.iter().map(|c| c.len()).sum();
    let mut out = Vec::new();
    out.extend_from_slice(b"RIFF");
    out.extend_from_slice(&(4 + body as u32).to_le_bytes());
    out.extend_from_slice(b"AVI ");
    for child in children {
        out.extend_from_slice(child);
    }
    out
}

fn main_header(total_frames: u32, width: u32, height: u32) -> Vec<u8> {
    let mut out = Vec::new();
    for value in [333333u32, 0, 512, 2064, total_frames, 0, 1, 3819000, width, height] {
        out.extend_from_slice(&value.to_le_bytes());
    }
    out.extend_from_slice(&[0u8; 16]);
    out
}

fn stream_header(length: u32) -> Vec<u8> {
    let mut out = Vec::new();
    out.extend_from_slice(b"vids");
    out.extend_from_slice(b"DIB ");
    out.extend_from_slice(&0u32.to_le_bytes());
    out.extend_from_slice(&0u16.to_le_bytes());
    out.extend_from_slice(&0u16.to_le_bytes());
    for value in [0u32, 3333333, 10000000, 0, length, 3819000, 0, 0] {
        out.extend_from_slice(&value.to_le_bytes());
    }
    out.extend_from_slice(&[0u8; 8]);
    out
}

fn stream_format(width: i32, height: i32, bit_count: u16) -> Vec<u8> {
    let mut out = Vec::new();
    out.extend_from_slice(&40u32.to_le_bytes());
    out.extend_from_slice(&width.to_le_bytes());
    out.extend_from_slice(&height.to_le_bytes());
    out.extend_from_slice(&1u16.to_le_bytes());
    out.extend_from_slice(&bit_count.to_le_bytes());
    out.extend_from_slice(&0u32.to_le_bytes());
    out.extend_from_slice(&3818112u32.to_le_bytes());
    out.extend_from_slice(&1u32.to_le_bytes());
    out.extend_from_slice(&1u32.to_le_bytes());
    out.extend_from_slice(&0u32.to_le_bytes());
    out.extend_from_slice(&0u32.to_le_bytes());
    // a grey palette follows the header
    for level in 0..=255u8 {
        out.extend_from_slice(&[level, level, level, 0]);
    }
    out
}

fn headers(width: u32, height: u32, bit_count: u16, total_frames: u32) -> Vec<u8> {
    list(
        b"hdrl",
        &[
            chunk(b"avih", &main_header(total_frames, width, height)),
            list(
                b"strl",
                &[
                    chunk(b"strh", &stream_header(total_frames)),
                    chunk(b"strf", &stream_format(width as i32, -(height as i32), bit_count)),
                    chunk(b"indx", &[0u8; 24]),
                ],
            ),
            list(b"odml", &[chunk(b"dmlh", &[0u8; 8])]),
        ],
    )
}

/// A small file of two by two pixels with the given frames.
fn small_file(frames: &[Vec<u8>]) -> Vec<u8> {
    let mut payloads = vec![chunk(b"ix00", &[0u8; 10])];
    for frame in frames {
        payloads.push(chunk(b"00db", frame));
        payloads.push(chunk(b"JUNK", &[0u8; 3]));
    }
    riff(&[
        headers(2, 2, 24, frames.len() as u32),
        chunk(b"JUNK", &[0u8; 12]),
        list(b"movi", &payloads),
        chunk(b"idx1", &[0u8; 16]),
    ])
}

fn failure(result: Result<AviFile, VideoError>) -> VideoError {
    match result {
        Ok(_) => panic!("the file was opened"),
        Err(e) => e,
    }
}

fn first_list<'a>(entries: &'a [Entry], list_type: &[u8; 4]) -> &'a astro_video_player::riff::ListMeta {
    find_mandatory_list(entries, *list_type).unwrap()
}

#[test]
fn headers_are_decoded_field_by_field() {
    let bytes = small_file(&[vec![0u8; 12]]);
    let entries = read_entries(&bytes).unwrap();
    let hdrl = first_list(&entries, b"hdrl");
    let avih = find_mandatory_chunk(hdrl, *b"avih").unwrap();
    let main = parse_main_header(&bytes, avih).unwrap();
    assert_eq!(main.micro_sec_per_frame, 333333);
    assert_eq!(main.max_bytes_per_sec, 0);
    assert_eq!(main.padding_granularity, 512);
    assert_eq!(main.flags, 2064);
    assert_eq!(main.total_frames, 1);
    assert_eq!(main.initial_frames, 0);
    assert_eq!(main.streams, 1);
    assert_eq!(main.suggested_buffer_size, 3819000);
    assert_eq!(main.width, 2);
    assert_eq!(main.height, 2);
    assert_eq!(main.reserved, [0, 0, 0, 0]);

    let strl = find_mandatory_list_in_list(hdrl, *b"strl").unwrap();
    let strh = find_mandatory_chunk(strl, *b"strh").unwrap();
    let stream = parse_stream_header(&bytes, strh).unwrap();
    assert_eq!(stream.fcc_type, [118, 105, 100, 115]);
    assert_eq!(stream.fcc_handler, [68, 73, 66, 32]);
    assert_eq!(stream.flags, 0);
    assert_eq!(stream.priority, 0);
    assert_eq!(stream.language, 0);
    assert_eq!(stream.initial_frames, 0);
    assert_eq!(stream.scale, 3333333);
    assert_eq!(stream.rate, 10000000);
    assert_eq!(stream.start, 0);
    assert_eq!(stream.length, 1);
    assert_eq!(stream.suggested_buffer_size, 3819000);
    assert_eq!(stream.quality, 0);
    assert_eq!(stream.sample_size, 0);
    assert_eq!((stream.left, stream.top, stream.right, stream.bottom), (0, 0, 0, 0));

    let strf = find_mandatory_chunk(strl, *b"strf").unwrap();
    assert_eq!(strf.chunk_size, 1064);
    let format = parse_stream_format(&bytes, strf).unwrap();
    assert_eq!(format.header.size, 40);
    assert_eq!(format.header.width, 2);
    assert_eq!(format.header.height, -2);
    assert_eq!(format.header.planes, 1);
    assert_eq!(format.header.bit_count, 24);
    assert_eq!(format.header.compression, 0);
    assert_eq!(format.header.size_image, 3818112);
    assert_eq!(format.header.x_pels_per_meter, 4294967297);
    assert_eq!(format.header.y_pels_per_meter, 0);
    assert_eq!(format.header.clr_used, 0);
    assert_eq!(format.header.clr_important, 65793);
    assert_eq!(format.color_coding, ColorCoding::BGR);
    assert!(format.rgb.is_empty());
}

#[test]
fn integers_are_read_low_byte_first() {
    let mut payload = vec![0u8; 44];
    payload[0..4].copy_from_slice(&[0x01, 0x02, 0x03, 0x04]);
    payload[32..36].copy_from_slice(&[0xff, 0xff, 0xff, 0xff]);
    payload[40..44].copy_from_slice(&[9, 8, 7, 6]);
    let bytes = riff(&[chunk(b"avih", &payload)]);
    let meta = ChunkMeta { chunk_id: *b"avih", data_offset: 20, chunk_size: 44, data_size: 44 };
    let main = parse_main_header(&bytes, &meta).unwrap();
    assert_eq!(main.micro_sec_per_frame, 0x04030201);
    assert_eq!(main.width, u32::MAX);
    assert_eq!(main.reserved, [9, 8, 7, 6]);
}

#[test]
fn signed_fields_are_twos_complement() {
    let mut payload = stream_format(-1, i32::MIN, 24);
    payload.truncate(48);
    let bytes = riff(&[chunk(b"strf", &payload)]);
    let meta = ChunkMeta { chunk_id: *b"strf", data_offset: 20, chunk_size: 48, data_size: 48 };
    let format = parse_stream_format(&bytes, &meta).unwrap();
    assert_eq!(format.header.width, -1);
    assert_eq!(format.header.height, i32::MIN);
    let mut payload = stream_format(i32::MAX, 0, 24);
    payload.truncate(48);
    let bytes = riff(&[chunk(b"strf", &payload)]);
    let format = parse_stream_format(&bytes, &meta).unwrap();
    assert_eq!(format.header.width, i32::MAX);
    assert_eq!(format.header.height, 0);
}

#[test]
fn short_header_chunks_are_malformed() {
    let bytes = riff(&[chunk(b"avih", &[0u8; 43])]);
    let meta = ChunkMeta { chunk_id: *b"avih", data_offset: 20, chunk_size: 43, data_size: 44 };
    let e = parse_main_header(&bytes, &meta).unwrap_err();
    assert_eq!(e.kind, VideoErrorKind::MalformedContainer);
    assert_eq!(e.error.message, "chunk is too short for its header");

    let bytes = riff(&[chunk(b"strh", &[0u8; 55])]);
    let meta = ChunkMeta { chunk_id: *b"strh", data_offset: 20, chunk_size: 55, data_size: 56 };
    assert_eq!(
        parse_stream_header(&bytes, &meta).unwrap_err().kind,
        VideoErrorKind::MalformedContainer
    );

    let bytes = riff(&[chunk(b"strf", &stream_format(2, 2, 24)[..47])]);
    let meta = ChunkMeta { chunk_id: *b"strf", data_offset: 20, chunk_size: 47, data_size: 48 };
    assert_eq!(
        parse_stream_format(&bytes, &meta).unwrap_err().kind,
        VideoErrorKind::MalformedContainer
    );
}

#[test]
fn stream_format_tells_its_depth_in_forty_bytes() {
    let meta = |size: usize| ChunkMeta {
        chunk_id: *b"strf",
        data_offset: 20,
        chunk_size: size,
        data_size: size + size % 2,
    };
    // a format of 40 bytes that is not decoded says why
    let bytes = riff(&[chunk(b"strf", &stream_format(2, 2, 8)[..40])]);
    let e = parse_stream_format(&bytes, &meta(40)).unwrap_err();
    assert_eq!(e.kind, VideoErrorKind::UnsupportedPixelFormat);
    let bytes = riff(&[chunk(b"strf", &stream_format(2, 2, 5)[..40])]);
    let e = parse_stream_format(&bytes, &meta(40)).unwrap_err();
    assert_eq!(e.kind, VideoErrorKind::InvalidPixelFormat);
    // less than 40 bytes are no format
    let bytes = riff(&[chunk(b"strf", &stream_format(2, 2, 8)[..39])]);
    let e = parse_stream_format(&bytes, &meta(39)).unwrap_err();
    assert_eq!(e.kind, VideoErrorKind::MalformedContainer);
    // a format of 24 bits takes 48 bytes
    let bytes = riff(&[chunk(b"strf", &stream_format(2, 2, 24)[..40])]);
    let e = parse_stream_format(&bytes, &meta(40)).unwrap_err();
    assert_eq!(e.kind, VideoErrorKind::MalformedContainer);
    let bytes = riff(&[chunk(b"strf", &stream_format(2, 2, 24)[..48])]);
    let format = parse_stream_format(&bytes, &meta(48)).unwrap();
    assert_eq!(format.header.bit_count, 24);
}

#[test]
fn header_chunk_outside_the_file_is_malformed() {
    let bytes = riff(&[chunk(b"avih", &[0u8; 44])]);
    let meta = ChunkMeta { chunk_id: *b"avih", data_offset: 21, chunk_size: 44, data_size: 44 };
    assert_eq!(
        parse_main_header(&bytes, &meta).unwrap_err().kind,
        VideoErrorKind::MalformedContainer
    );
    let meta = ChunkMeta {
        chunk_id: *b"avih",
        data_offset: usize::MAX,
        chunk_size: usize::MAX,
        data_size: usize::MAX,
    };
    assert_eq!(
        parse_main_header(&bytes, &meta).unwrap_err().kind,
        VideoErrorKind::MalformedContainer
    );
}

#[test]
fn only_24_bits_per_pixel_are_decoded() {
    assert_eq!(color_coding(24).unwrap(), ColorCoding::BGR);
    let reasons = [
        (0u16, "JPG and PNG are not supported"),
        (1, "Monochrome images are not supported"),
        (4, "16-color images are not supported"),
        (8, "256-color images are not supported"),
        (16, "16-bit images are not supported"),
        (32, "32-bit images are not supported"),
    ];
    for (bit_count, reason) in reasons {
        let e = color_coding(bit_count).unwrap_err();
        assert_eq!(e.kind, VideoErrorKind::UnsupportedPixelFormat);
        assert_eq!(e.error.message, reason);
    }
    for bit_count in [2u16, 3, 7, 12, 15, 23, 25, 48, 64, u16::MAX] {
        let e = color_coding(bit_count).unwrap_err();
        assert_eq!(e.kind, VideoErrorKind::InvalidPixelFormat);
        assert_eq!(e.error.message, "Invalid bit_count");
    }
}

#[test]
fn unsupported_pixel_format_opens_nothing() {
    let bytes = riff(&[headers(2, 2, 8, 0), list(b"movi", &[])]);
    let e = failure(AviFile::open(bytes));
    assert_eq!(e.kind, VideoErrorKind::UnsupportedPixelFormat);
    assert_eq!(e.error.message, "256-color images are not supported");
}

#[test]
fn invalid_pixel_format_opens_nothing() {
    let bytes = riff(&[headers(2, 2, 9, 0), list(b"movi", &[])]);
    let e = failure(AviFile::open(bytes));
    assert_eq!(e.kind, VideoErrorKind::InvalidPixelFormat);
}

#[test]
fn missing_frame_list_fails_the_open() {
    let bytes = riff(&[headers(2, 2, 24, 0), chunk(b"idx1", &[0u8; 16])]);
    let e = failure(AviFile::open(bytes));
    assert_eq!(e.kind, VideoErrorKind::MissingMandatoryList);
    assert_eq!(e.error.message, "AVI file is missing mandatory list 'movi'");
    assert_eq!(e.to_string(), "AviError: AVI file is missing mandatory list 'movi'");
}

#[test]
fn missing_header_list_fails_the_open() {
    let bytes = riff(&[list(b"movi", &[])]);
    let e = failure(AviFile::open(bytes));
    assert_eq!(e.kind, VideoErrorKind::MissingMandatoryList);
    assert_eq!(e.error.message, "AVI file is missing mandatory list 'hdrl'");
}

#[test]
fn frame_list_below_the_top_is_not_found() {
    let bytes = riff(&[list(b"wrap", &[headers(2, 2, 24, 0), list(b"movi", &[])])]);
    let e = failure(AviFile::open(bytes));
    assert_eq!(e.kind, VideoErrorKind::MissingMandatoryList);
    assert_eq!(e.error.message, "AVI file is missing mandatory list 'hdrl'");
}

#[test]
fn missing_main_header_names_chunk_and_parent() {
    let bytes = riff(&[list(b"hdrl", &[list(b"strl", &[])]), list(b"movi", &[])]);
    let e = failure(AviFile::open(bytes));
    assert_eq!(e.kind, VideoErrorKind::MissingMandatoryChunk);
    assert_eq!(e.error.message, "List 'hdrl' is missing mandatory chunk 'avih'");
}

#[test]
fn missing_stream_list_names_list_and_parent() {
    let bytes = riff(&[
        list(b"hdrl", &[chunk(b"avih", &main_header(0, 2, 2))]),
        list(b"movi", &[]),
    ]);
    let e = failure(AviFile::open(bytes));
    assert_eq!(e.kind, VideoErrorKind::MissingMandatoryList);
    assert_eq!(e.error.message, "List 'hdrl' is missing mandatory list 'strl'");
}

#[test]
fn missing_stream_chunks_name_chunk_and_parent() {
    let avih = chunk(b"avih", &main_header(0, 2, 2));
    let bytes = riff(&[
        list(b"hdrl", &[avih.clone(), list(b"strl", &[chunk(b"strf", &stream_format(2, 2, 24))])]),
        list(b"movi", &[]),
    ]);
    let e = failure(AviFile::open(bytes));
    assert_eq!(e.kind, VideoErrorKind::MissingMandatoryChunk);
    assert_eq!(e.error.message, "List 'strl' is missing mandatory chunk 'strh'");

    let bytes = riff(&[
        list(b"hdrl", &[avih, list(b"strl", &[chunk(b"strh", &stream_header(0))])]),
        list(b"movi", &[]),
    ]);
    let e = failure(AviFile::open(bytes));
    assert_eq!(e.kind, VideoErrorKind::MissingMandatoryChunk);
    assert_eq!(e.error.message, "List 'strl' is missing mandatory chunk 'strf'");
}

#[test]
fn index_chunk_is_not_mandatory() {
    let bytes = riff(&[
        list(
            b"hdrl",
            &[
                chunk(b"avih", &main_header(0, 2, 2)),
                list(
                    b"strl",
                    &[
                        chunk(b"strh", &stream_header(0)),
                        chunk(b"strf", &stream_format(2, -2, 24)),
                    ],
                ),
            ],
        ),
        list(b"movi", &[]),
    ]);
    let avi = AviFile::open(bytes).unwrap();
    assert_eq!(avi.frames().len(), 0);
}

#[test]
fn first_of_several_entries_wins() {
    let first = main_header(1, 10, 20);
    let second = main_header(2, 30, 40);
    let bytes = riff(&[
        list(
            b"hdrl",
            &[
                chunk(b"avih", &first),
                chunk(b"avih", &second),
                list(
                    b"strl",
                    &[
                        chunk(b"strh", &stream_header(7)),
                        chunk(b"strf", &stream_format(10, 20, 24)),
                    ],
                ),
                list(
                    b"strl",
                    &[
                        chunk(b"strh", &stream_header(8)),
                        chunk(b"strf", &stream_format(30, 40, 8)),
                    ],
                ),
            ],
        ),
        list(b"movi", &[chunk(b"00db", &[1, 2, 3, 4])]),
        list(b"movi", &[]),
    ]);
    let avi = AviFile::open(bytes).unwrap();
    assert_eq!(avi.main_header().width, 10);
    assert_eq!(avi.main_header().height, 20);
    assert_eq!(avi.stream_header().length, 7);
    assert_eq!(avi.stream_format().header.width, 10);
    assert_eq!(avi.frames().len(), 1);
}

#[test]
fn malformed_container_fails_the_open() {
    let mut bytes = small_file(&[vec![0u8; 12]]);
    bytes.pop();
    let e = failure(AviFile::open(bytes));
    assert_eq!(e.kind, VideoErrorKind::MalformedContainer);
}

#[test]
fn frame_index_keeps_frames_in_file_order() {
    let frames = vec![vec![1u8; 12], vec![2u8; 11], vec![3u8; 12]];
    let bytes = small_file(&frames);
    let entries = read_entries(&bytes).unwrap();
    let movi = first_list(&entries, b"movi");
    assert_eq!(movi.children.len(), 7);
    let index = frame_index(movi);
    assert_eq!(index.len(), 3);
    for (i, meta) in index.iter().enumerate() {
        assert_eq!(meta.chunk_id, *b"00db");
        assert_eq!(meta.chunk_size, frames[i].len());
        assert_eq!(&bytes[meta.data_offset..meta.data_offset + meta.chunk_size], &frames[i][..]);
        if i > 0 {
            assert!(index[i - 1].data_offset < meta.data_offset);
        }
    }
}

#[test]
fn frame_count_is_the_length_of_the_index() {
    // the header declares five frames, the file holds three
    let frames = vec![vec![1u8; 12], vec![2u8; 12], vec![3u8; 12]];
    let mut payloads = Vec::new();
    for frame in &frames {
        payloads.push(chunk(b"00db", frame));
        payloads.push(chunk(b"01wb", &[0u8; 6]));
    }
    let bytes = riff(&[headers(2, 2, 24, 5), list(b"movi", &payloads)]);
    let avi = AviFile::open(bytes).unwrap();
    assert_eq!(avi.main_header().total_frames, 5);
    assert_eq!(avi.frames().len(), 3);
    let video = AviVideo { avi };
    assert_eq!(video.frame_count(), 3);
}

#[test]
fn get_frame_serves_every_frame_and_no_other() {
    let frames = vec![vec![1u8; 12], vec![2u8; 11], vec![3u8; 12], vec![]];
    let video = AviVideo { avi: AviFile::open(small_file(&frames)).unwrap() };
    assert_eq!(video.frame_count(), 4);
    for i in 0..video.frame_count() {
        assert_eq!(video.get_frame(i).unwrap(), &frames[i][..]);
    }
    for i in [4usize, 5, 100, usize::MAX] {
        let e = video.get_frame(i).unwrap_err();
        assert_eq!(e.kind, VideoErrorKind::FrameIndexOutOfRange);
        assert_eq!(e.error.message, "frame index out of range");
    }
}

#[test]
fn video_without_frames_serves_none() {
    let video = AviVideo { avi: AviFile::open(small_file(&[])).unwrap() };
    assert_eq!(video.frame_count(), 0);
    assert_eq!(video.get_frame(0).unwrap_err().kind, VideoErrorKind::FrameIndexOutOfRange);
}

#[test]
fn avi_video_describes_its_pixels() {
    let video = AviVideo { avi: AviFile::open(small_file(&[vec![0u8; 12]])).unwrap() };
    assert_eq!(video.image_width(), 2);
    assert_eq!(video.image_height(), 2);
    assert_eq!(video.bytes_per_pixel(), 1);
    assert_eq!(video.pixel_depth_bits(), 8);
    assert_eq!(*video.bayer(), Bayer::BGR);
    assert_eq!(*video.endianness(), Endianness::LittleEndian);
}

#[test]
fn read_bytes_gives_the_declared_bytes() {
    let bytes = small_file(&[vec![5u8; 11]]);
    let avi = AviFile::open(bytes).unwrap();
    let meta = avi.frames()[0];
    assert_eq!(meta.chunk_size, 11);
    assert_eq!(meta.data_size, 12);
    assert_eq!(avi.read_bytes(&meta).unwrap(), &[5u8; 11][..]);
    let outside = ChunkMeta { chunk_id: *b"00db", data_offset: 0, chunk_size: 1 << 20, data_size: 0 };
    assert!(avi.read_bytes(&outside).is_none());
}

#[test]
fn entries_from_elsewhere_are_checked_against_the_file() {
    let bytes = small_file(&[vec![1u8; 12]]);
    let mut entries = read_entries(&bytes).unwrap();
    let avi = AviFile::from_entries(&entries, bytes.clone()).unwrap();
    assert_eq!(avi.frames().len(), 1);
    // a frame that claims more bytes than the file holds
    for entry in entries.iter_mut() {
        if let Entry::List(meta) = entry {
            if meta.list_type == *b"movi" {
                meta.children.push(Entry::Chunk(ChunkMeta {
                    chunk_id: *b"00db",
                    data_offset: bytes.len() - 1,
                    chunk_size: 2,
                    data_size: 2,
                }));
            }
        }
    }
    let e = failure(AviFile::from_entries(&entries, bytes));
    assert_eq!(e.kind, VideoErrorKind::MalformedContainer);
}

#[test]
fn failure_shows_its_description() {
    let e = VideoError::new(
        VideoErrorKind::CorruptFrameData,
        AviError::new("something is wrong".to_string()),
    );
    assert_eq!(e.kind, VideoErrorKind::CorruptFrameData);
    assert_eq!(e.error.message, "something is wrong");
    assert_eq!(e.error.to_string(), "AviError: something is wrong");
    assert_eq!(e.to_string(), "AviError: something is wrong");
    let e = VideoError::with_message(VideoErrorKind::InvalidPixelFormat, "bad");
    assert_eq!(e.kind, VideoErrorKind::InvalidPixelFormat);
    assert_eq!(e.error.message, "bad");
}

#[test]
fn every_proper_prefix_of_a_file_is_malformed() {
    let bytes = small_file(&[vec![1u8; 12], vec![2u8; 12]]);
    for len in 0..bytes.len() {
        let e = failure(AviFile::open(bytes[..len].to_vec()));
        assert_eq!(e.kind, VideoErrorKind::MalformedContainer);
    }
    assert!(AviFile::open(bytes).is_ok());
}

#[test]
fn damaged_files_open_or_fail_in_a_known_way() {
    let bytes = small_file(&[vec![1u8; 12]]);
    for at in 0..bytes.len() {
        for value in [0u8, 1, 0x7f, 0xff] {
            let mut damaged = bytes.clone();
            damaged[at] = value;
            match AviFile::open(damaged) {
                Ok(avi) => {
                    let frames = avi.frames().len();
                    let video = AviVideo { avi };
                    assert_eq!(video.frame_count(), frames);
                    for index in 0..frames {
                        assert!(video.get_frame(index).is_ok());
                    }
                    assert!(video.get_frame(frames).is_err());
                }
                Err(e) => {
                    assert_ne!(e.kind, VideoErrorKind::FrameIndexOutOfRange);
                    assert_ne!(e.kind, VideoErrorKind::CorruptFrameData);
                    assert!(e.to_string().starts_with("AviError: "));
                }
            }
        }
    }
}
