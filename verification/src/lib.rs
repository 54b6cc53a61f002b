//! Decoding and re-encoding of the RIFF-based AVI container: a bounds-checked
//! cursor, the chunk walk that locates the header and the frame index, the
//! fixed-layout decoders, and the rebuild of the index block.

pub mod cursor;
pub mod endian;
pub mod error;
pub mod frame;
pub mod frames;
pub mod header;
pub mod layout;
pub mod rebuild;

use crate::endian::write_u32_le;
use crate::error::{AviError, Tag};
use crate::frames::{decode_index, encode_index, video_count, Frames};
use crate::header::{decode_header, Header};
use crate::layout::{layout_of, lemma_layout_bounds, locate, movi_offset, HEADER_SIZE};
use crate::rebuild::{
    append, assembled, lemma_assembled_len, patch, rebuild_error, rebuilt, size_field,
    RIFF_SIZE_OFFSET, TOTAL_FRAMES_OFFSET,
};
use vstd::prelude::*;
use vstd::slice::{slice_subrange, slice_to_vec};

verus! {

/// A decoded container: the bytes of the file, and what was read from them.
pub struct AVI {
    /// The frames of the file. See `Frames`.
    pub frames: Frames,
    /// The bytes of the file.
    pub stream: Vec<u8>,
    /// The main header.
    pub header: Header,
    /// The offset of the `movi` tag in `stream`, or 0 where the file has no
    /// `movi` list.
    pub pos_of_movi: usize,
}

impl AVI {
    /// Decodes a container from the bytes of a file. It fails exactly where
    /// the bytes have no layout, and with the reason that `layout_of` gives.
    /// Otherwise the header is decoded from the 44 bytes at the header's
    /// offset, the frames from the whole records of the index region, and
    /// the bytes are kept. A file without a `hdrl` list has its header read
    /// from offset 0, and one without a `movi` list has `pos_of_movi` 0; see
    /// `locate_strict` for a check that refuses both.
    pub fn new(data: Vec<u8>) -> (r: Result<Self, AviError>)
        ensures
            match layout_of(data@) {
                Err(e) => r is Err && r->Err_0 == e,
                Ok(l) => r is Ok && r->Ok_0.stream@ == data@ && r->Ok_0.pos_of_movi == l.movi
                    && r->Ok_0.pos_of_movi == movi_offset(data@)
                    && r->Ok_0.header == decode_header(
                    data@.subrange(l.header as int, l.header + HEADER_SIZE),
                ) && r->Ok_0.frames@ == decode_index(
                    data@.subrange(l.index_start as int, l.index_end as int),
                ),
            },
    {
        let layout = match locate(data.as_slice()) {
            Ok(layout) => layout,
            Err(e) => { return Err(e); },
        };
        let len = data.len();
        proof {
            lemma_layout_bounds(data@);
        }
        assert(layout.index_start <= layout.index_end <= len);
        assert(layout.header + HEADER_SIZE <= len);
        let frames = Frames::new(
            slice_subrange(data.as_slice(), layout.index_start, layout.index_end),
        );
        let header = Header::new(
            slice_subrange(data.as_slice(), layout.header, layout.header + HEADER_SIZE),
        );
        Ok(Self { frames, header, stream: data, pos_of_movi: layout.movi })
    }

    /// Rebuilds the bytes of the file from the movie data given and the
    /// frames as they now are, and hands out a copy of them to be written.
    /// It fails, and changes nothing, exactly where `overwrite` does.
    pub fn output(&mut self, framedata: &[u8]) -> (r: Result<Vec<u8>, AviError>)
        ensures
            final(self).frames == old(self).frames,
            final(self).header == old(self).header,
            final(self).pos_of_movi == old(self).pos_of_movi,
            match rebuild_error(
                old(self).stream@,
                old(self).pos_of_movi as int,
                framedata@,
                old(self).frames@,
            ) {
                Some(e) => r is Err && r->Err_0 == e && final(self).stream == old(self).stream,
                None => r is Ok && r->Ok_0@ == final(self).stream@ && final(self).stream@
                    == rebuilt(
                    old(self).stream@,
                    old(self).pos_of_movi as int,
                    framedata@,
                    old(self).frames@,
                ),
            },
    {
        match self.overwrite(framedata) {
            Ok(()) => Ok(slice_to_vec(self.stream.as_slice())),
            Err(e) => Err(e),
        }
    }

    /// Replaces `stream` by the rebuilt buffer: the old bytes up to four
    /// bytes before the `movi` tag, then `movi`, `framedata`, `idx1`, the
    /// number of bytes of the records, and the records of `frames`; with the
    /// size field of the file and the frame count of the header patched. On
    /// failure nothing is changed. Header and frames stay as they are.
    pub fn overwrite(&mut self, framedata: &[u8]) -> (r: Result<(), AviError>)
        ensures
            final(self).frames == old(self).frames,
            final(self).header == old(self).header,
            final(self).pos_of_movi == old(self).pos_of_movi,
            match rebuild_error(
                old(self).stream@,
                old(self).pos_of_movi as int,
                framedata@,
                old(self).frames@,
            ) {
                Some(e) => r == Err::<(), AviError>(e) && final(self).stream == old(self).stream,
                None => r == Ok::<(), AviError>(()) && final(self).stream@ == rebuilt(
                    old(self).stream@,
                    old(self).pos_of_movi as int,
                    framedata@,
                    old(self).frames@,
                ),
            },
    {
        let movi = self.pos_of_movi;
        if movi < 4 || movi - 4 > self.stream.len() {
            return Err(AviError::OutOfRange);
        }
        let count = self.frames.meta.len();
        let records = size_field(count)?;
        if records > u32::MAX / 16 {
            return Err(AviError::EncodeOverflow);
        }
        let mut new_stream: Vec<u8> = Vec::new();
        append(&mut new_stream, slice_subrange(self.stream.as_slice(), 0, movi - 4));
        append(&mut new_stream, Tag::Movi.bytes().as_slice());
        append(&mut new_stream, framedata);
        append(&mut new_stream, Tag::Idx1.bytes().as_slice());
        append(&mut new_stream, write_u32_le(records * 16).as_slice());
        let ghost front = new_stream@;
        let mut framecount: u32 = 0;
        for i in 0..count
            invariant
                count == self.frames.meta@.len(),
                count <= u32::MAX,
                *self == *old(self),
                new_stream@ == front + encode_index(self.frames.meta@.take(i as int)),
                framecount == video_count(self.frames.meta@.take(i as int)),
                framecount <= i,
        {
            let frame = self.frames.meta[i];
            append(&mut new_stream, frame.as_bytes().as_slice());
            if frame.is_videoframe() {
                framecount += 1;
            }
            assert(self.frames.meta@.take(i + 1).drop_last() =~= self.frames.meta@.take(
                i as int,
            ));
        }
        assert(self.frames.meta@.take(count as int) =~= self.frames.meta@);
        assert(new_stream@ =~= assembled(
            self.stream@,
            movi as int,
            framedata@,
            self.frames@,
        ));
        proof {
            lemma_assembled_len(self.stream@, movi as int, framedata@, self.frames@);
        }
        if new_stream.len() < TOTAL_FRAMES_OFFSET + 4 {
            return Err(AviError::OutOfRange);
        }
        let eof = size_field(new_stream.len() - 8)?;
        patch(&mut new_stream, RIFF_SIZE_OFFSET, &write_u32_le(eof));
        patch(&mut new_stream, TOTAL_FRAMES_OFFSET, &write_u32_le(framecount));
        self.stream = new_stream;
        Ok(())
    }
}

} // verus!
