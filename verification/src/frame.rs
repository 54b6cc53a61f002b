//! One record of the frame index.

use crate::endian::{
    be_bytes, be_u32, le_bytes, le_u32, lemma_read_then_write, lemma_write_then_read, read_u32_be,
    read_u32_le, write_u32_be, write_u32_le,
};
use vstd::prelude::*;
use vstd::slice::slice_subrange;

verus! {

/// The flag bit that marks the chunk of a record as a key frame.
pub const AVIIF_KEYFRAME: u32 = 0x0000_0010;

/// One record of the frame index: sixteen bytes on disk. The id is kept as
/// the big-endian number of its four characters; the other three fields are
/// little-endian on disk.
#[derive(Clone, Copy, Debug, PartialEq, Eq, Structural)]
pub struct Frame {
    /// The four-character code of the data chunk, such as `00dc`.
    pub id: u32,
    /// The flags of the record; see `AVIIF_KEYFRAME`.
    pub flag: u32,
    /// The position of the chunk's header within the movie data.
    pub offset: u32,
    /// The size of the chunk in bytes.
    pub length: u32,
}

/// The record that sixteen bytes spell.
pub open spec fn decode_record(b: Seq<u8>) -> Frame
    recommends
        b.len() == 16,
{
    Frame {
        id: be_u32(b.subrange(0, 4)),
        flag: le_u32(b.subrange(4, 8)),
        offset: le_u32(b.subrange(8, 12)),
        length: le_u32(b.subrange(12, 16)),
    }
}

/// The sixteen bytes of a record: the id most significant byte first, then
/// flags, offset and length, each least significant byte first.
pub open spec fn encode_record(f: Frame) -> Seq<u8> {
    be_bytes(f.id) + le_bytes(f.flag) + le_bytes(f.offset) + le_bytes(f.length)
}

impl Frame {
    /// Whether the third and fourth character of the id are `db` or `dc`.
    pub open spec fn video(self) -> bool {
        be_bytes(self.id)[2] == 0x64 && (be_bytes(self.id)[3] == 0x62 || be_bytes(self.id)[3]
            == 0x63)
    }

    /// Whether the third and fourth character of the id are `wb`.
    pub open spec fn audio(self) -> bool {
        be_bytes(self.id)[2] == 0x77 && be_bytes(self.id)[3] == 0x62
    }

    /// Whether the record is a video frame with the key-frame bit set.
    pub open spec fn key(self) -> bool {
        self.video() && self.flag & AVIIF_KEYFRAME != 0
    }

    /// Whether the record is a video frame with the key-frame bit clear.
    pub open spec fn delta(self) -> bool {
        self.video() && self.flag & AVIIF_KEYFRAME == 0
    }

    /// Decodes the sixteen bytes at the start of a window of the index.
    pub(crate) fn decode(bytes: &[u8]) -> (f: Self)
        requires
            bytes@.len() == 16,
        ensures
            f == decode_record(bytes@),
    {
        let id = read_u32_be(slice_subrange(bytes, 0, 4));
        let flag = read_u32_le(slice_subrange(bytes, 4, 8));
        let offset = read_u32_le(slice_subrange(bytes, 8, 12));
        let length = read_u32_le(slice_subrange(bytes, 12, 16));
        proof {
            assert(bytes@.subrange(0, 4).subrange(0, 4) =~= bytes@.subrange(0, 4));
            assert(bytes@.subrange(4, 8).subrange(0, 4) =~= bytes@.subrange(4, 8));
            assert(bytes@.subrange(8, 12).subrange(0, 4) =~= bytes@.subrange(8, 12));
            assert(bytes@.subrange(12, 16).subrange(0, 4) =~= bytes@.subrange(12, 16));
        }
        Frame { id, flag, offset, length }
    }

    /// Decodes a record from its sixteen bytes, which hold id, flags, offset
    /// and length in this order.
    #[must_use]
    pub fn new(bytes: &[u8; 16]) -> (f: Self)
        ensures
            f == decode_record(bytes@),
    {
        Frame::decode(bytes.as_slice())
    }

    /// The four-character code of the chunk, as a big-endian number.
    pub fn id(&self) -> (id: u32)
        ensures
            id == self.id,
    {
        self.id
    }

    /// The flags of the record.
    pub fn flag(&self) -> (flag: u32)
        ensures
            flag == self.flag,
    {
        self.flag
    }

    /// The position of the chunk's header.
    pub fn offset(&self) -> (offset: u32)
        ensures
            offset == self.offset,
    {
        self.offset
    }

    /// The size of the chunk in bytes.
    pub fn length(&self) -> (length: u32)
        ensures
            length == self.length,
    {
        self.length
    }

    /// The sixteen bytes of the record as they stand on disk.
    pub fn as_bytes(&self) -> (bytes: [u8; 16])
        ensures
            bytes@ == encode_record(*self),
    {
        let a = write_u32_be(self.id);
        let b = write_u32_le(self.flag);
        let c = write_u32_le(self.offset);
        let d = write_u32_le(self.length);
        let bytes: [u8; 16] = [
            a[0],
            a[1],
            a[2],
            a[3],
            b[0],
            b[1],
            b[2],
            b[3],
            c[0],
            c[1],
            c[2],
            c[3],
            d[0],
            d[1],
            d[2],
            d[3],
        ];
        assert(bytes@ =~= encode_record(*self));
        bytes
    }

    /// Whether the record describes a video frame.
    #[must_use]
    pub fn is_videoframe(&self) -> (b: bool)
        ensures
            b == self.video(),
    {
        let id = self.id_as_u8_array();
        id[2] == 0x64 && (id[3] == 0x62 || id[3] == 0x63)
    }

    /// Whether the record describes an audio frame.
    #[must_use]
    pub fn is_audioframe(&self) -> (b: bool)
        ensures
            b == self.audio(),
    {
        let id = self.id_as_u8_array();
        id[2] == 0x77 && id[3] == 0x62
    }

    /// Whether the record describes a key frame. Only a video frame can be
    /// one.
    #[must_use]
    pub fn is_iframe(&self) -> (b: bool)
        ensures
            b == self.key(),
    {
        if self.is_videoframe() {
            return self.flag() & AVIIF_KEYFRAME != 0;
        }
        false
    }

    /// Whether the record describes a delta frame. Only a video frame can
    /// be one.
    #[must_use]
    pub fn is_pframe(&self) -> (b: bool)
        ensures
            b == self.delta(),
    {
        if self.is_videoframe() {
            return self.flag() & AVIIF_KEYFRAME == 0;
        }
        false
    }

    /// The four characters of the id.
    fn id_as_u8_array(&self) -> (buf: [u8; 4])
        ensures
            buf@ == be_bytes(self.id),
    {
        write_u32_be(self.id())
    }
}

/// Encoding a record and decoding the bytes gives the record back: each of
/// the four fields survives, though the id is stored in the other byte order.
pub proof fn lemma_decode_encode(f: Frame)
    ensures
        encode_record(f).len() == 16,
        decode_record(encode_record(f)) == f,
{
    let b = encode_record(f);
    lemma_write_then_read(f.id);
    lemma_write_then_read(f.flag);
    lemma_write_then_read(f.offset);
    lemma_write_then_read(f.length);
    assert(b.subrange(0, 4) =~= be_bytes(f.id));
    assert(b.subrange(4, 8) =~= le_bytes(f.flag));
    assert(b.subrange(8, 12) =~= le_bytes(f.offset));
    assert(b.subrange(12, 16) =~= le_bytes(f.length));
}

/// Decoding sixteen bytes and encoding the record gives the bytes back.
pub proof fn lemma_encode_decode(b: Seq<u8>)
    requires
        b.len() == 16,
    ensures
        encode_record(decode_record(b)) == b,
{
    lemma_read_then_write(b.subrange(0, 4));
    lemma_read_then_write(b.subrange(4, 8));
    lemma_read_then_write(b.subrange(8, 12));
    lemma_read_then_write(b.subrange(12, 16));
    assert(encode_record(decode_record(b)) =~= b);
}

/// Every record is of exactly one kind: video, audio or neither. A key
/// frame and a delta frame are video frames, a video frame is exactly one of
/// the two, and a record that is no video frame is neither.
pub proof fn lemma_classification(f: Frame)
    ensures
        !(f.video() && f.audio()),
        f.key() ==> f.video(),
        f.delta() ==> f.video(),
        f.video() ==> (f.key() != f.delta()),
        !f.video() ==> !f.key() && !f.delta(),
        f.audio() ==> !f.key() && !f.delta(),
{
}

} // verus!
