use avirus::error::{AviError, Tag};
use avirus::frame::{Frame, AVIIF_KEYFRAME};
use avirus::frames::Frames;
use avirus::header::Header;
use avirus::layout::{is_formatted, locate, locate_strict, Layout};
use avirus::rebuild::size_field;
use avirus::AVI;

fn id_of(text: &[u8; 4]) -> u32 {
    u32::from_be_bytes(*text)
}

fn put_u32(out: &mut Vec<u8>, n: u32) {
    out.extend_from_slice(&n.to_le_bytes());
}

fn u32_at(data: &[u8], at: usize) -> u32 {
    u32::from_le_bytes([data[at], data[at + 1], data[at + 2], data[at + 3]])
}

/// The header list of the sample: `LIST`, its size, `hdrl`, `avih`, the size
/// of the header and its fourteen fields. It takes the bytes 12 to 88.
fn header_list(total_frames: u32) -> Vec<u8> {
    let mut out = Vec::new();
    out.extend_from_slice(b"LIST");
    put_u32(&mut out, 68);
    out.extend_from_slice(b"hdrl");
    out.extend_from_slice(b"avih");
    put_u32(&mut out, 56);
    for field in [40_000u32, 1_000_000, 0, 0x10, total_frames, 0, 2, 4096, 320, 240, 0, 0, 0, 0] {
        put_u32(&mut out, field);
    }
    out
}

/// The movie data of the sample, behind the `movi` tag: three chunks.
fn movie_chunks() -> Vec<u8> {
    let mut out = Vec::new();
    out.extend_from_slice(b"00dc");
    put_u32(&mut out, 4);
    out.extend_from_slice(&[1, 2, 3, 4]);
    out.extend_from_slice(b"01wb");
    put_u32(&mut out, 2);
    out.extend_from_slice(&[5, 6]);
    out.extend_from_slice(b"00dc");
    put_u32(&mut out, 6);
    out.extend_from_slice(&[7, 8, 9, 10, 11, 12]);
    out
}

fn sample_frames() -> Vec<Frame> {
    vec![
        Frame { id: id_of(b"00dc"), flag: AVIIF_KEYFRAME, offset: 4, length: 4 },
        Frame { id: id_of(b"01wb"), flag: 0, offset: 16, length: 2 },
        Frame { id: id_of(b"00dc"), flag: 0, offset: 26, length: 6 },
    ]
}

/// A small container: header list, a `JUNK` chunk, movie list, index.
fn sample() -> Vec<u8> {
    let chunks = movie_chunks();
    let mut out = Vec::new();
    out.extend_from_slice(b"RIFF");
    put_u32(&mut out, 0);
    out.extend_from_slice(b"AVI ");
    out.extend_from_slice(&header_list(2));
    out.extend_from_slice(b"JUNK");
    put_u32(&mut out, 4);
    out.extend_from_slice(&[0, 0, 0, 0]);
    out.extend_from_slice(b"LIST");
    put_u32(&mut out, 4 + chunks.len() as u32);
    out.extend_from_slice(b"movi");
    out.extend_from_slice(&chunks);
    out.extend_from_slice(b"idx1");
    put_u32(&mut out, 48);
    for frame in sample_frames() {
        out.extend_from_slice(&frame.as_bytes());
    }
    let size = out.len() as u32 - 8;
    out[4..8].copy_from_slice(&size.to_le_bytes());
    out
}

#[test]
fn sample_is_well_formed() {
    assert_eq!(is_formatted(&sample()), Ok(()));
}

#[test]
fn locate_finds_the_parts_of_the_sample() {
    let data = sample();
    let movi = 88 + 12 + 8;
    let idx = movi + 4 + movie_chunks().len();
    assert_eq!(&data[movi..movi + 4], b"movi");
    assert_eq!(&data[idx..idx + 4], b"idx1");
    assert_eq!(
        locate(&data),
        Ok(Layout { header: 28, movi, index_start: idx + 8, index_end: idx + 8 + 48 })
    );
    assert_eq!(data.len(), idx + 8 + 48);
}

#[test]
fn new_decodes_header_and_frames() {
    let data = sample();
    let avi = AVI::new(data.clone()).unwrap();
    assert_eq!(avi.stream, data);
    assert_eq!(avi.pos_of_movi, 108);
    assert_eq!(avi.frames.meta, sample_frames());
    assert_eq!(avi.header, Header::new(&data[28..72]));
    assert_eq!(avi.header.microseconds_per_frame, 40_000);
    assert_eq!(avi.header.max_bytes_per_second, 1_000_000);
    assert_eq!(avi.header.flags, 0x10);
    assert_eq!(avi.header.total_frames, 2);
    assert_eq!(avi.header.number_of_streams, 2);
    assert_eq!(avi.header.suggested_buffer_size, 4096);
    assert_eq!(avi.header.width, 320);
    assert_eq!(avi.header.height, 240);
}

#[test]
fn rifx_is_rejected_at_offset_zero() {
    let mut data = sample();
    data[3] = b'X';
    let expected = AviError::MalformedContainer { expected: Tag::Riff, offset: 0 };
    assert_eq!(is_formatted(&data), Err(expected));
    assert_eq!(locate(&data), Err(expected));
    assert_eq!(AVI::new(data).err(), Some(expected));
}

#[test]
fn tags_are_compared_with_their_case() {
    let mut data = sample();
    data[0..4].copy_from_slice(b"riff");
    assert_eq!(
        is_formatted(&data),
        Err(AviError::MalformedContainer { expected: Tag::Riff, offset: 0 })
    );
}

#[test]
fn missing_form_type_is_rejected_at_offset_eight() {
    let mut data = sample();
    data[8..12].copy_from_slice(b"WAVE");
    assert_eq!(
        is_formatted(&data),
        Err(AviError::MalformedContainer { expected: Tag::Avi, offset: 8 })
    );
}

#[test]
fn chain_that_ends_in_another_tag_is_rejected_behind_the_chain() {
    let mut data = Vec::new();
    data.extend_from_slice(b"RIFF");
    put_u32(&mut data, 0);
    data.extend_from_slice(b"AVI ");
    data.extend_from_slice(b"LIST");
    put_u32(&mut data, 6);
    data.extend_from_slice(&[1, 2, 3, 4, 5, 6]);
    data.extend_from_slice(b"idx2");
    put_u32(&mut data, 0);
    assert_eq!(
        is_formatted(&data),
        Err(AviError::MalformedContainer { expected: Tag::Idx1, offset: 26 })
    );
    assert_eq!(
        AVI::new(data).err(),
        Some(AviError::MalformedContainer { expected: Tag::Idx1, offset: 26 })
    );
}

#[test]
fn file_without_a_chain_needs_idx1_at_twelve() {
    let mut data = Vec::new();
    data.extend_from_slice(b"RIFF");
    put_u32(&mut data, 0);
    data.extend_from_slice(b"AVI ");
    data.extend_from_slice(b"movi");
    assert_eq!(
        is_formatted(&data),
        Err(AviError::MalformedContainer { expected: Tag::Idx1, offset: 12 })
    );
    data[12..16].copy_from_slice(b"idx1");
    assert_eq!(is_formatted(&data), Ok(()));
}

#[test]
fn truncated_buffers_are_out_of_range() {
    let data = sample();
    assert_eq!(is_formatted(&[]), Err(AviError::OutOfRange));
    assert_eq!(is_formatted(&data[..3]), Err(AviError::OutOfRange));
    assert_eq!(is_formatted(&data[..4]), Err(AviError::OutOfRange));
    assert_eq!(is_formatted(&data[..11]), Err(AviError::OutOfRange));
    assert_eq!(is_formatted(&data[..12]), Err(AviError::OutOfRange));
    assert_eq!(is_formatted(&data[..18]), Err(AviError::OutOfRange));
    assert_eq!(is_formatted(&data[..90]), Err(AviError::OutOfRange));
    let idx = data.len() - 56;
    assert_eq!(is_formatted(&data[..idx + 3]), Err(AviError::OutOfRange));
    assert_eq!(is_formatted(&data[..idx + 4]), Ok(()));
}

#[test]
fn index_that_reaches_beyond_the_buffer_is_out_of_range() {
    let data = sample();
    let idx = data.len() - 56;
    assert_eq!(locate(&data[..idx + 4]), Err(AviError::OutOfRange));
    assert_eq!(locate(&data[..idx + 7]), Err(AviError::OutOfRange));
    assert_eq!(locate(&data[..data.len() - 1]), Err(AviError::OutOfRange));
    assert_eq!(AVI::new(data[..data.len() - 1].to_vec()).err(), Some(AviError::OutOfRange));
}

#[test]
fn bytes_behind_the_index_are_left_alone() {
    let mut data = sample();
    let end = data.len();
    data.extend_from_slice(&[1, 2, 3]);
    let layout = locate(&data).unwrap();
    assert_eq!(layout.index_end, end);
    assert_eq!(AVI::new(data).unwrap().frames.meta, sample_frames());
}

#[test]
fn index_of_partial_records_drops_the_last() {
    let mut data = sample();
    let idx = data.len() - 56;
    data[idx + 4..idx + 8].copy_from_slice(&47u32.to_le_bytes());
    assert_eq!(
        locate(&data),
        Ok(Layout { header: 28, movi: 108, index_start: idx + 8, index_end: idx + 8 + 47 })
    );
    let avi = AVI::new(data.clone()).unwrap();
    assert_eq!(avi.frames.meta, sample_frames()[..2].to_vec());
    assert_eq!(avi.pos_of_movi, 108);
    assert_eq!(locate_strict(&data), Err(AviError::TruncatedIndex));
    data[idx + 4..idx + 8].copy_from_slice(&15u32.to_le_bytes());
    assert_eq!(AVI::new(data.clone()).unwrap().frames.meta, vec![]);
    assert_eq!(locate_strict(&data), Err(AviError::TruncatedIndex));
}

#[test]
fn missing_header_list_reads_the_header_from_the_start() {
    let mut data = sample();
    data[20..24].copy_from_slice(b"strl");
    assert_eq!(is_formatted(&data), Ok(()));
    let idx = data.len() - 56;
    assert_eq!(
        locate(&data),
        Ok(Layout { header: 0, movi: 108, index_start: idx + 8, index_end: idx + 56 })
    );
    let avi = AVI::new(data.clone()).unwrap();
    assert_eq!(avi.header, Header::new(&data[..44]));
    assert_eq!(avi.header.microseconds_per_frame, u32_at(&data, 4));
    assert_eq!(avi.header.max_bytes_per_second, u32::from_le_bytes(*b"AVI "));
    assert_eq!(avi.header.padding_granularity, u32::from_le_bytes(*b"LIST"));
    assert_eq!(avi.header.flags, 68);
    assert_eq!(avi.header.total_frames, u32::from_le_bytes(*b"strl"));
    assert_eq!(avi.frames.meta, sample_frames());
    assert_eq!(locate_strict(&data), Err(AviError::MissingChunk { expected: Tag::Hdrl }));
}

#[test]
fn small_file_without_header_list_decodes() {
    let record = Frame { id: id_of(b"00dc"), flag: 16, offset: 4, length: 0 };
    let mut data = Vec::new();
    data.extend_from_slice(b"RIFF");
    put_u32(&mut data, 40);
    data.extend_from_slice(b"AVI ");
    data.extend_from_slice(b"LIST");
    put_u32(&mut data, 4);
    data.extend_from_slice(b"movi");
    data.extend_from_slice(b"idx1");
    put_u32(&mut data, 16);
    data.extend_from_slice(&record.as_bytes());
    assert_eq!(data.len(), 48);
    let avi = AVI::new(data.clone()).unwrap();
    assert_eq!(avi.pos_of_movi, 20);
    assert_eq!(avi.frames.meta, vec![record]);
    assert_eq!(avi.header, Header::new(&data[..44]));
    assert_eq!(avi.header.microseconds_per_frame, 40);
    assert_eq!(AVI::new(data[..32].to_vec()).err(), Some(AviError::OutOfRange));
}

#[test]
fn missing_movie_list_leaves_the_offset_at_zero() {
    let mut data = sample();
    data[108..112].copy_from_slice(b"rec ");
    assert_eq!(is_formatted(&data), Ok(()));
    let idx = data.len() - 56;
    assert_eq!(
        locate(&data),
        Ok(Layout { header: 28, movi: 0, index_start: idx + 8, index_end: idx + 56 })
    );
    let mut avi = AVI::new(data.clone()).unwrap();
    assert_eq!(avi.pos_of_movi, 0);
    assert_eq!(avi.header.width, 320);
    assert_eq!(avi.frames.meta, sample_frames());
    assert_eq!(avi.overwrite(&[1, 2, 3]), Err(AviError::OutOfRange));
    assert_eq!(avi.stream, data);
    assert_eq!(locate_strict(&data), Err(AviError::MissingChunk { expected: Tag::Movi }));
}

#[test]
fn strict_check_accepts_a_complete_file() {
    let data = sample();
    assert_eq!(locate_strict(&data), locate(&data));
    assert!(locate_strict(&data).is_ok());
    let mut broken = sample();
    broken[3] = b'X';
    assert_eq!(
        locate_strict(&broken),
        Err(AviError::MalformedContainer { expected: Tag::Riff, offset: 0 })
    );
    assert_eq!(locate_strict(&data[..data.len() - 1]), Err(AviError::OutOfRange));
}

#[test]
fn header_without_all_its_bytes_is_out_of_range() {
    let mut data = Vec::new();
    data.extend_from_slice(b"RIFF");
    put_u32(&mut data, 0);
    data.extend_from_slice(b"AVI ");
    data.extend_from_slice(b"idx1");
    put_u32(&mut data, 0);
    assert_eq!(is_formatted(&data), Ok(()));
    assert_eq!(locate(&data), Err(AviError::OutOfRange));
    data.extend_from_slice(&[0u8; 23]);
    assert_eq!(locate(&data), Err(AviError::OutOfRange));
    data.push(0);
    assert_eq!(locate(&data), Ok(Layout { header: 0, movi: 0, index_start: 20, index_end: 20 }));
    assert_eq!(locate_strict(&data), Err(AviError::MissingChunk { expected: Tag::Hdrl }));
}

#[test]
fn header_that_reaches_beyond_the_buffer_is_out_of_range() {
    let mut data = Vec::new();
    data.extend_from_slice(b"RIFF");
    put_u32(&mut data, 0);
    data.extend_from_slice(b"AVI ");
    data.extend_from_slice(b"LIST");
    put_u32(&mut data, 4);
    data.extend_from_slice(b"movi");
    data.extend_from_slice(b"LIST");
    put_u32(&mut data, 4);
    data.extend_from_slice(b"hdrl");
    data.extend_from_slice(b"idx1");
    put_u32(&mut data, 16);
    data.extend_from_slice(&[0u8; 16]);
    assert_eq!(is_formatted(&data), Ok(()));
    assert_eq!(locate(&data), Err(AviError::OutOfRange));
    data.extend_from_slice(&[0u8; 23]);
    assert_eq!(locate(&data), Err(AviError::OutOfRange));
    data.push(0);
    assert_eq!(
        locate(&data),
        Ok(Layout { header: 40, movi: 20, index_start: 44, index_end: 60 })
    );
}

#[test]
fn last_list_of_a_type_wins() {
    let mut data = Vec::new();
    data.extend_from_slice(b"RIFF");
    put_u32(&mut data, 0);
    data.extend_from_slice(b"AVI ");
    for name in [b"hdrl", b"movi", b"hdrl", b"movi"] {
        data.extend_from_slice(b"LIST");
        put_u32(&mut data, 4);
        data.extend_from_slice(name);
    }
    data.extend_from_slice(b"idx1");
    put_u32(&mut data, 0);
    data.extend_from_slice(&[0u8; 40]);
    assert_eq!(
        locate(&data),
        Ok(Layout { header: 52, movi: 56, index_start: 68, index_end: 68 })
    );
}

#[test]
fn chunk_smaller_than_its_type_tag_is_skipped_by_its_size() {
    let mut data = Vec::new();
    data.extend_from_slice(b"RIFF");
    put_u32(&mut data, 0);
    data.extend_from_slice(b"AVI ");
    data.extend_from_slice(b"JUNK");
    put_u32(&mut data, 0);
    data.extend_from_slice(b"JUNK");
    put_u32(&mut data, 1);
    data.push(0);
    data.extend_from_slice(b"idx1");
    assert_eq!(is_formatted(&data), Ok(()));
    assert_eq!(locate(&data), Err(AviError::OutOfRange));
    put_u32(&mut data, 0);
    assert_eq!(locate(&data), Err(AviError::OutOfRange));
    data.extend_from_slice(&[0u8; 11]);
    assert_eq!(locate(&data), Ok(Layout { header: 0, movi: 0, index_start: 37, index_end: 37 }));
    assert_eq!(locate_strict(&data), Err(AviError::MissingChunk { expected: Tag::Hdrl }));
}

#[test]
fn overwrite_sizes_and_counts() {
    let mut avi = AVI::new(sample()).unwrap();
    for len in [0usize, 1, 17, 300] {
        let movie: Vec<u8> = (0..len).map(|i| i as u8).collect();
        avi.stream = sample();
        assert_eq!(avi.overwrite(&movie), Ok(()));
        let out = &avi.stream;
        let idx = 108 + len;
        assert_eq!(out.len(), idx + 8 + 48);
        assert_eq!(&out[idx..idx + 4], b"idx1");
        assert_eq!(u32_at(out, idx + 4), 48);
        assert_eq!(u32_at(out, 48), 2);
        assert_eq!(u32_at(out, 4) as usize, out.len() - 8);
    }
}

#[test]
fn overwrite_lays_out_the_whole_buffer() {
    let data = sample();
    let mut avi = AVI::new(data.clone()).unwrap();
    avi.frames.meta = vec![sample_frames()[1], sample_frames()[2], sample_frames()[2]];
    let movie = [0xaau8, 0xbb, 0xcc];
    assert_eq!(avi.overwrite(&movie), Ok(()));
    let mut expected = Vec::new();
    expected.extend_from_slice(&data[..104]);
    expected.extend_from_slice(b"movi");
    expected.extend_from_slice(&movie);
    expected.extend_from_slice(b"idx1");
    put_u32(&mut expected, 48);
    expected.extend_from_slice(&sample_frames()[1].as_bytes());
    expected.extend_from_slice(&sample_frames()[2].as_bytes());
    expected.extend_from_slice(&sample_frames()[2].as_bytes());
    let size = expected.len() as u32 - 8;
    expected[4..8].copy_from_slice(&size.to_le_bytes());
    expected[48..52].copy_from_slice(&2u32.to_le_bytes());
    assert_eq!(avi.stream, expected);
    assert_eq!(avi.pos_of_movi, 108);
    assert_eq!(avi.header.total_frames, 2);
    assert_eq!(avi.frames.meta.len(), 3);
}

#[test]
fn overwrite_patches_all_four_bytes_of_a_field() {
    let mut data = sample();
    data[4..8].copy_from_slice(&[0xff; 4]);
    data[48..52].copy_from_slice(&[0xff; 4]);
    let mut avi = AVI::new(data).unwrap();
    avi.frames.meta.clear();
    assert_eq!(avi.overwrite(&[]), Ok(()));
    assert_eq!(avi.stream.len(), 116);
    assert_eq!(&avi.stream[4..8], &[108, 0, 0, 0]);
    assert_eq!(&avi.stream[48..52], &[0, 0, 0, 0]);
    assert_eq!(&avi.stream[108..116], &[b'i', b'd', b'x', b'1', 0, 0, 0, 0]);
}

#[test]
fn overwrite_puts_the_tag_where_the_size_of_the_list_was() {
    let data = sample();
    let mut avi = AVI::new(data.clone()).unwrap();
    let movie = data[112..data.len() - 56].to_vec();
    assert_eq!(avi.overwrite(&movie), Ok(()));
    assert_eq!(avi.stream.len(), data.len() - 4);
    assert_eq!(&avi.stream[..4], &data[..4]);
    assert_eq!(&avi.stream[8..104], &data[8..104]);
    assert_eq!(&avi.stream[104..108], b"movi");
    assert_eq!(&avi.stream[108..], &data[112..]);
}

#[test]
fn rebuilt_index_decodes_to_the_frames_given() {
    let mut avi = AVI::new(sample()).unwrap();
    let mut frames = sample_frames();
    frames.reverse();
    frames.push(Frame { id: id_of(b"02db"), flag: 0x110, offset: 99, length: 1 });
    avi.frames.meta = frames.clone();
    assert_eq!(avi.overwrite(&[1, 2, 3, 4, 5]), Ok(()));
    let idx = 108 + 5;
    assert_eq!(u32_at(&avi.stream, idx + 4), 64);
    assert_eq!(Frames::new(&avi.stream[idx + 8..]).meta, frames);
    assert_eq!(u32_at(&avi.stream, 48), 3);
}

#[test]
fn overwrite_without_room_before_the_tag_is_out_of_range() {
    let data = sample();
    let mut avi = AVI::new(data.clone()).unwrap();
    avi.pos_of_movi = 3;
    assert_eq!(avi.overwrite(&[1, 2, 3]), Err(AviError::OutOfRange));
    assert_eq!(avi.stream, data);
    avi.pos_of_movi = data.len() + 5;
    assert_eq!(avi.overwrite(&[1, 2, 3]), Err(AviError::OutOfRange));
    assert_eq!(avi.stream, data);
    avi.pos_of_movi = data.len() + 4;
    assert_eq!(avi.overwrite(&[1, 2, 3]), Ok(()));
    assert_eq!(avi.stream.len(), data.len() + 4 + 3 + 8 + 48);
}

#[test]
fn index_block_between_the_patched_fields_stays_whole() {
    let mut avi = AVI::new(sample()).unwrap();
    avi.pos_of_movi = 20;
    avi.frames.meta.truncate(2);
    assert_eq!(avi.overwrite(&[9, 9, 9, 9]), Ok(()));
    let out = &avi.stream;
    assert_eq!(out.len(), 64);
    assert_eq!(&out[16..20], b"movi");
    assert_eq!(&out[20..24], &[9, 9, 9, 9]);
    assert_eq!(&out[24..28], b"idx1");
    assert_eq!(u32_at(out, 28), 32);
    assert_eq!(&out[32..48], &sample_frames()[0].as_bytes());
    assert_eq!(u32_at(out, 48), 1);
    assert_eq!(&out[52..64], &sample_frames()[1].as_bytes()[4..]);
    assert_eq!(u32_at(out, 4), 56);
}

#[test]
fn overwrite_too_short_for_the_frame_count_is_out_of_range() {
    let data = sample();
    let mut avi = AVI::new(data.clone()).unwrap();
    avi.pos_of_movi = 20;
    avi.frames.meta.truncate(1);
    assert_eq!(avi.overwrite(&[1, 2, 3, 4, 5, 6, 7]), Err(AviError::OutOfRange));
    assert_eq!(avi.stream, data);
    assert_eq!(avi.overwrite(&[1, 2, 3, 4, 5, 6, 7, 8]), Ok(()));
    assert_eq!(avi.stream.len(), 52);
    assert_eq!(u32_at(&avi.stream, 4), 44);
    assert_eq!(u32_at(&avi.stream, 48), 1);
}

#[test]
fn output_hands_out_the_rebuilt_bytes() {
    let mut avi = AVI::new(sample()).unwrap();
    let mut twin = AVI::new(sample()).unwrap();
    let movie = movie_chunks();
    let bytes = avi.output(&movie).unwrap();
    assert_eq!(twin.overwrite(&movie), Ok(()));
    assert_eq!(bytes, twin.stream);
    assert_eq!(bytes, avi.stream);
    avi.pos_of_movi = 0;
    assert_eq!(avi.output(&movie), Err(AviError::OutOfRange));
    assert_eq!(avi.stream, twin.stream);
}

#[test]
fn size_field_holds_thirty_two_bits() {
    assert_eq!(size_field(0), Ok(0));
    assert_eq!(size_field(48), Ok(48));
    assert_eq!(size_field(u32::MAX as usize), Ok(u32::MAX));
    assert_eq!(size_field(usize::MAX), Err(AviError::EncodeOverflow));
}

#[test]
fn tag_bytes_are_the_ascii_characters() {
    assert_eq!(&Tag::Riff.bytes(), b"RIFF");
    assert_eq!(&Tag::Avi.bytes(), b"AVI ");
    assert_eq!(&Tag::List.bytes(), b"LIST");
    assert_eq!(&Tag::Junk.bytes(), b"JUNK");
    assert_eq!(&Tag::Hdrl.bytes(), b"hdrl");
    assert_eq!(&Tag::Movi.bytes(), b"movi");
    assert_eq!(&Tag::Idx1.bytes(), b"idx1");
    assert!(Tag::Movi.matches(b"movi"));
    assert!(!Tag::Movi.matches(b"MOVI"));
    assert!(!Tag::Movi.matches(b"mov"));
    assert!(!Tag::Movi.matches(b"movie"));
}
