//! What the rebuilt buffer of a container is: the bytes before the movie
//! data, the movie data, a fresh index block, and the two patched fields.

use crate::endian::{le_bytes, le_u32, lemma_read_then_write, lemma_write_then_read};
use crate::error::{AviError, Tag};
use crate::frame::Frame;
use crate::frames::{
    decode_index, encode_index, lemma_decode_encode_index, lemma_encode_decode_index,
    lemma_encode_index_len, lemma_video_count_bound, video_count,
};
use crate::layout::{last_list, layout_of, lemma_layout_bounds, size_at};
use vstd::prelude::*;

verus! {

/// The offset of the size field of the file, which counts the bytes behind
/// itself.
pub const RIFF_SIZE_OFFSET: usize = 4;

/// The offset of the frame count in the main header of a file whose header
/// list comes first.
pub const TOTAL_FRAMES_OFFSET: usize = 48;

/// The buffer before it is patched: the old buffer up to four bytes before
/// the `movi` tag, the tag `movi`, the movie data, the tag `idx1`, the
/// number of bytes of the records, and the records.
pub open spec fn assembled(
    stream: Seq<u8>,
    movi: int,
    movie_data: Seq<u8>,
    frames: Seq<Frame>,
) -> Seq<u8> {
    stream.subrange(0, movi - 4) + Tag::Movi.spec_bytes() + movie_data + Tag::Idx1.spec_bytes()
        + le_bytes((16 * frames.len()) as u32) + encode_index(frames)
}

/// The buffer with the bytes from `at` on replaced by `field`.
pub open spec fn patched(buf: Seq<u8>, at: int, field: Seq<u8>) -> Seq<u8> {
    buf.subrange(0, at) + field + buf.subrange(at + field.len(), buf.len() as int)
}

/// The rebuilt buffer: the assembled one, with its length less eight in the
/// size field of the file, and the number of video frames in the frame
/// count of the main header.
pub open spec fn rebuilt(stream: Seq<u8>, movi: int, movie_data: Seq<u8>, frames: Seq<Frame>) -> Seq<
    u8,
> {
    let whole = assembled(stream, movi, movie_data, frames);
    patched(
        patched(whole, RIFF_SIZE_OFFSET as int, le_bytes((whole.len() - 8) as u32)),
        TOTAL_FRAMES_OFFSET as int,
        le_bytes(video_count(frames) as u32),
    )
}

/// The length of the rebuilt buffer: the bytes up to the `movi` tag, the
/// movie data, the tag and the count of the index, and sixteen bytes for
/// each record.
pub open spec fn rebuilt_len(movi: int, movie_data: Seq<u8>, frames: Seq<Frame>) -> int {
    movi + movie_data.len() + 8 + 16 * frames.len()
}

/// Why a buffer cannot be rebuilt, if it cannot: the `movi` tag does not
/// lie in the buffer with four bytes before it, the records take more bytes
/// than the count field can say, the result is too short to hold the frame
/// count, or it is too long for the size field.
pub open spec fn rebuild_error(
    stream: Seq<u8>,
    movi: int,
    movie_data: Seq<u8>,
    frames: Seq<Frame>,
) -> Option<AviError> {
    if movi < 4 || movi - 4 > stream.len() {
        Some(AviError::OutOfRange)
    } else if 16 * frames.len() > u32::MAX {
        Some(AviError::EncodeOverflow)
    } else if rebuilt_len(movi, movie_data, frames) < TOTAL_FRAMES_OFFSET + 4 {
        Some(AviError::OutOfRange)
    } else if rebuilt_len(movi, movie_data, frames) - 8 > u32::MAX {
        Some(AviError::EncodeOverflow)
    } else {
        None
    }
}

/// The assembled buffer has the length that `rebuilt_len` says.
pub proof fn lemma_assembled_len(
    stream: Seq<u8>,
    movi: int,
    movie_data: Seq<u8>,
    frames: Seq<Frame>,
)
    requires
        4 <= movi <= stream.len() + 4,
    ensures
        assembled(stream, movi, movie_data, frames).len() == rebuilt_len(
            movi,
            movie_data,
            frames,
        ),
{
    lemma_encode_index_len(frames);
    lemma_write_then_read((16 * frames.len()) as u32);
}

/// A size or a count as the 32-bit number of its field, where it fits.
pub fn size_field(n: usize) -> (r: Result<u32, AviError>)
    ensures
        n <= u32::MAX ==> r == Ok::<u32, AviError>(n as u32),
        n > u32::MAX ==> r == Err::<u32, AviError>(AviError::EncodeOverflow),
{
    match u32::try_from(n) {
        Ok(field) => Ok(field),
        Err(_) => Err(AviError::EncodeOverflow),
    }
}

/// Appends the bytes of `src` to `dst`.
pub(crate) fn append(dst: &mut Vec<u8>, src: &[u8])
    ensures
        final(dst)@ == old(dst)@ + src@,
{
    for i in 0..src.len()
        invariant
            dst@ == old(dst)@ + src@.subrange(0, i as int),
    {
        dst.push(src[i]);
        assert(dst@ =~= old(dst)@ + src@.subrange(0, i + 1));
    }
    assert(src@.subrange(0, src@.len() as int) =~= src@);
}

/// Replaces the four bytes from `at` on by `field`.
pub(crate) fn patch(buf: &mut Vec<u8>, at: usize, field: &[u8; 4])
    requires
        at + 4 <= old(buf)@.len(),
    ensures
        final(buf)@ == patched(old(buf)@, at as int, field@),
{
    let len = buf.len();
    assert(at + 4 <= len);
    buf.set(at, field[0]);
    buf.set(at + 1, field[1]);
    buf.set(at + 2, field[2]);
    buf.set(at + 3, field[3]);
    assert(buf@ =~= patched(old(buf)@, at as int, field@));
}

/// What a rebuilt buffer holds. Its length is that of the bytes kept, the
/// movie data, eight bytes and sixteen for each record. The size field of
/// the file says that length less eight, and the frame count of the header
/// says the number of video frames. Every byte under neither of these two
/// fields is the byte of the assembled buffer, so the bytes before the
/// movie data are those of the old buffer. Where the first eight bytes of
/// the index block lie under neither field, they read `idx1` and the number
/// of bytes of the records. Where the records lie behind the frame count,
/// they decode to the records given.
pub proof fn lemma_rebuilt_fields(
    stream: Seq<u8>,
    movi: int,
    movie_data: Seq<u8>,
    frames: Seq<Frame>,
)
    requires
        rebuild_error(stream, movi, movie_data, frames) is None,
    ensures
        ({
            let out = rebuilt(stream, movi, movie_data, frames);
            let whole = assembled(stream, movi, movie_data, frames);
            let index = movi + movie_data.len();
            &&& out.len() == rebuilt_len(movi, movie_data, frames)
            &&& le_u32(out.subrange(4, 8)) == out.len() - 8
            &&& le_u32(out.subrange(48, 52)) == video_count(frames)
            &&& forall|i: int|
                0 <= i < out.len() && !(4 <= i < 8) && !(48 <= i < 52) ==> out[i] == whole[i]
            &&& forall|i: int|
                0 <= i < movi - 4 && !(4 <= i < 8) && !(48 <= i < 52) ==> out[i] == stream[i]
            &&& (8 <= index && index + 8 <= 48 || 52 <= index) ==> out.subrange(index, index + 4)
                == Tag::Idx1.spec_bytes() && le_u32(out.subrange(index + 4, index + 8)) == 16
                * frames.len()
            &&& 52 <= index + 8 ==> out.subrange(index + 8, out.len() as int) == encode_index(
                frames,
            ) && decode_index(out.subrange(index + 8, out.len() as int)) == frames
        }),
{
    let whole = assembled(stream, movi, movie_data, frames);
    let out = rebuilt(stream, movi, movie_data, frames);
    let index = movi + movie_data.len();
    lemma_encode_index_len(frames);
    lemma_decode_encode_index(frames);
    lemma_video_count_bound(frames);
    lemma_write_then_read((16 * frames.len()) as u32);
    lemma_write_then_read((whole.len() - 8) as u32);
    lemma_write_then_read(video_count(frames) as u32);
    lemma_assembled_len(stream, movi, movie_data, frames);
    assert(out.len() == whole.len());
    assert(out.subrange(4, 8) =~= le_bytes((whole.len() - 8) as u32));
    assert(out.subrange(48, 52) =~= le_bytes(video_count(frames) as u32));
    assert forall|i: int|
        0 <= i < out.len() && !(4 <= i < 8) && !(48 <= i < 52) implies out[i] == whole[i] by {}
    assert(whole.subrange(index, index + 4) =~= Tag::Idx1.spec_bytes());
    assert(whole.subrange(index + 4, index + 8) =~= le_bytes((16 * frames.len()) as u32));
    assert(whole.subrange(index + 8, whole.len() as int) =~= encode_index(frames));
    if 8 <= index && index + 8 <= 48 || 52 <= index {
        assert(out.subrange(index, index + 4) =~= whole.subrange(index, index + 4));
        assert(out.subrange(index + 4, index + 8) =~= whole.subrange(index + 4, index + 8));
    }
    if 52 <= index + 8 {
        assert(out.subrange(index + 8, out.len() as int) =~= whole.subrange(
            index + 8,
            whole.len() as int,
        ));
    }
}

/// A buffer cut at three places is the sum of its four parts.
proof fn lemma_parts(data: Seq<u8>, cut: int, idx: int, front: Seq<u8>, count: Seq<u8>)
    requires
        0 <= cut <= idx,
        idx + 8 <= data.len(),
        data.subrange(cut, idx) == front,
        data.subrange(idx + 4, idx + 8) == count,
    ensures
        data.subrange(0, cut) + front + data.subrange(idx, idx + 4) + count + data.subrange(
            idx + 8,
            data.len() as int,
        ) == data,
{
    let upto_idx = data.subrange(0, cut) + front;
    assert(upto_idx =~= data.subrange(0, idx));
    let upto_count = upto_idx + data.subrange(idx, idx + 4);
    assert(upto_count =~= data.subrange(0, idx + 4));
    let upto_records = upto_count + count;
    assert(upto_records =~= data.subrange(0, idx + 8));
    assert(upto_records + data.subrange(idx + 8, data.len() as int) =~= data);
}

/// A patch with the bytes that are there already changes nothing.
proof fn lemma_patch_same(buf: Seq<u8>, at: int, field: Seq<u8>)
    requires
        0 <= at,
        at + field.len() <= buf.len(),
        buf.subrange(at, at + field.len()) == field,
    ensures
        patched(buf, at, field) == buf,
{
    assert(patched(buf, at, field) =~= buf);
}

/// Rebuilding gives the input back where the input already has the shape
/// that rebuilding gives: a buffer with a layout and a `movi` list, whose
/// index is a whole number of records and ends the file, and whose bytes
/// from four before the `movi` tag up to `idx1` are the tag `movi` and the
/// movie data, with a size field and a frame count that say what is there.
/// The frames are those decoded from the input.
pub proof fn lemma_rebuild_restores(data: Seq<u8>, movie_data: Seq<u8>)
    requires
        data.len() <= usize::MAX,
        data.len() >= TOTAL_FRAMES_OFFSET + 4,
        layout_of(data) is Ok,
        last_list(data, 12, Tag::Movi, None) is Some,
        (layout_of(data)->Ok_0.index_end - layout_of(data)->Ok_0.index_start) % 16 == 0,
        layout_of(data)->Ok_0.index_end == data.len(),
        data.subrange(layout_of(data)->Ok_0.movi - 4, layout_of(data)->Ok_0.index_start - 8)
            == Tag::Movi.spec_bytes() + movie_data,
        size_at(data, RIFF_SIZE_OFFSET as int) == data.len() - 8,
        size_at(data, TOTAL_FRAMES_OFFSET as int) == video_count(
            decode_index(
                data.subrange(
                    layout_of(data)->Ok_0.index_start as int,
                    layout_of(data)->Ok_0.index_end as int,
                ),
            ),
        ),
    ensures
        ({
            let l = layout_of(data)->Ok_0;
            let frames = decode_index(data.subrange(l.index_start as int, l.index_end as int));
            &&& rebuild_error(data, l.movi as int, movie_data, frames) is None
            &&& rebuilt(data, l.movi as int, movie_data, frames) == data
        }),
{
    let l = layout_of(data)->Ok_0;
    let region = data.subrange(l.index_start as int, l.index_end as int);
    let frames = decode_index(region);
    let movi = l.movi as int;
    let idx = l.index_start - 8;
    lemma_layout_bounds(data);
    lemma_encode_decode_index(region);
    lemma_encode_index_len(frames);
    lemma_read_then_write(data.subrange(idx + 4, idx + 8));
    lemma_read_then_write(data.subrange(4, 8));
    lemma_read_then_write(data.subrange(48, 52));
    assert(16 * frames.len() == region.len());
    let count = le_bytes((16 * frames.len()) as u32);
    assert(count == data.subrange(idx + 4, idx + 8));
    let kept = data.subrange(0, movi - 4);
    let front = Tag::Movi.spec_bytes() + movie_data;
    lemma_parts(data, movi - 4, idx, front, count);
    let whole = assembled(data, movi, movie_data, frames);
    assert(kept + Tag::Movi.spec_bytes() + movie_data =~= kept + front);
    assert(whole == data);
    let size = le_bytes((data.len() - 8) as u32);
    assert(size == data.subrange(4, 8));
    lemma_patch_same(data, 4, size);
    let frame_count = le_bytes(video_count(frames) as u32);
    assert(frame_count == data.subrange(48, 52));
    lemma_patch_same(data, 48, frame_count);
}

/// Rebuilding a decoded buffer around the movie data that it holds behind
/// its `movi` tag, with the frames decoded from it, assembles the buffer
/// again but for the four bytes before the tag, which held the size of the
/// list: the tag takes their place, and all behind it moves up by four.
/// This holds where the buffer has a `movi` list whose tag lies fully
/// before `idx1`, and the index is a whole number of records and ends the
/// file.
pub proof fn lemma_rebuild_drops_list_size(data: Seq<u8>)
    requires
        data.len() <= usize::MAX,
        layout_of(data) is Ok,
        last_list(data, 12, Tag::Movi, None) is Some,
        (layout_of(data)->Ok_0.index_end - layout_of(data)->Ok_0.index_start) % 16 == 0,
        layout_of(data)->Ok_0.index_end == data.len(),
        layout_of(data)->Ok_0.movi + 12 <= layout_of(data)->Ok_0.index_start,
    ensures
        ({
            let l = layout_of(data)->Ok_0;
            let frames = decode_index(data.subrange(l.index_start as int, l.index_end as int));
            let movie_data = data.subrange(l.movi + 4, l.index_start - 8);
            assembled(data, l.movi as int, movie_data, frames) == data.subrange(0, l.movi - 4)
                + data.subrange(l.movi as int, data.len() as int)
        }),
{
    let l = layout_of(data)->Ok_0;
    let region = data.subrange(l.index_start as int, l.index_end as int);
    let frames = decode_index(region);
    let movi = l.movi as int;
    let idx = l.index_start - 8;
    lemma_layout_bounds(data);
    lemma_encode_decode_index(region);
    lemma_encode_index_len(frames);
    lemma_read_then_write(data.subrange(idx + 4, idx + 8));
    assert(16 * frames.len() == region.len());
    let count = le_bytes((16 * frames.len()) as u32);
    assert(count == data.subrange(idx + 4, idx + 8));
    let behind = data.subrange(movi, data.len() as int);
    let front = Tag::Movi.spec_bytes() + data.subrange(movi + 4, idx);
    assert(front =~= behind.subrange(0, idx - movi));
    assert(behind.subrange(idx - movi, idx - movi + 4) =~= Tag::Idx1.spec_bytes());
    assert(behind.subrange(idx - movi + 4, idx - movi + 8) =~= count);
    assert(behind.subrange(idx - movi + 8, behind.len() as int) =~= encode_index(frames));
    lemma_parts(behind, 0, idx - movi, front, count);
    assert(behind.subrange(0, 0) + front =~= front);
    let kept = data.subrange(0, movi - 4);
    assert(assembled(data, movi, data.subrange(movi + 4, idx), frames) =~= kept + (front
        + Tag::Idx1.spec_bytes() + count + encode_index(frames)));
}

} // verus!
