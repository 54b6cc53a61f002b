//! The frame index: the records of a container in the order of the file.

use crate::frame::{decode_record, encode_record, lemma_decode_encode, lemma_encode_decode, Frame};
use crate::layout::FRAME_SIZE;
use vstd::prelude::*;
use vstd::slice::slice_subrange;

verus! {

/// The records that a region of bytes spells: one for each full window of
/// sixteen bytes, in order. Bytes behind the last full window are dropped.
pub open spec fn decode_index(bytes: Seq<u8>) -> Seq<Frame> {
    Seq::new(
        (bytes.len() / 16) as nat,
        |i: int| decode_record(bytes.subrange(16 * i, 16 * i + 16)),
    )
}

/// The bytes of a sequence of records: the bytes of each, in order.
pub open spec fn encode_index(frames: Seq<Frame>) -> Seq<u8>
    decreases frames.len(),
{
    if frames.len() == 0 {
        Seq::empty()
    } else {
        encode_index(frames.drop_last()) + encode_record(frames.last())
    }
}

/// The number of video frames among the records.
pub open spec fn video_count(frames: Seq<Frame>) -> nat
    decreases frames.len(),
{
    if frames.len() == 0 {
        0
    } else {
        video_count(frames.drop_last()) + if frames.last().video() {
            1nat
        } else {
            0nat
        }
    }
}

/// The frames of a container. Drop, repeat or reorder the records in
/// `meta` before the index is rebuilt.
pub struct Frames {
    /// The records, in the order of the file.
    pub meta: Vec<Frame>,
}

impl View for Frames {
    type V = Seq<Frame>;

    open spec fn view(&self) -> Seq<Frame> {
        self.meta@
    }
}

impl Frames {
    /// Decodes the records of a region of the file.
    pub fn new(data: &[u8]) -> (frames: Self)
        ensures
            frames@ == decode_index(data@),
    {
        let count = data.len() / FRAME_SIZE;
        let mut meta: Vec<Frame> = Vec::new();
        for i in 0..count
            invariant
                count == data@.len() / 16,
                data@.len() <= usize::MAX,
                meta@.len() == i,
                forall|k: int| 0 <= k < i ==> meta@[k] == decode_index(data@)[k],
        {
            assert(16 * i + 16 <= data@.len());
            let window = slice_subrange(data, FRAME_SIZE * i, FRAME_SIZE * i + FRAME_SIZE);
            meta.push(Frame::decode(window));
        }
        assert(meta@ =~= decode_index(data@));
        Frames { meta }
    }

    /// A pass over the records, from the first on. Each call starts anew.
    pub fn iter(&self) -> (iter: Iter<'_>)
        ensures
            iter.remaining() == self@,
    {
        let iter = Iter { frames: &self.meta, next: 0 };
        assert(iter.remaining() =~= self@);
        iter
    }
}

/// A pass over the records of a `Frames`.
#[must_use]
pub struct Iter<'a> {
    frames: &'a Vec<Frame>,
    next: usize,
}

impl<'a> Iter<'a> {
    /// The records that the pass has yet to hand out.
    pub closed spec fn remaining(&self) -> Seq<Frame> {
        if self.next <= self.frames@.len() {
            self.frames@.subrange(self.next as int, self.frames@.len() as int)
        } else {
            Seq::empty()
        }
    }

    /// Hands out the next record, or `None` when the pass is over.
    pub fn next(&mut self) -> (frame: Option<Frame>)
        ensures
            old(self).remaining().len() == 0 ==> frame is None && final(self).remaining()
                == old(self).remaining(),
            old(self).remaining().len() > 0 ==> frame == Some(old(self).remaining()[0])
                && final(self).remaining() == old(self).remaining().drop_first(),
    {
        if self.next >= self.frames.len() {
            return None;
        }
        let frame = self.frames[self.next];
        self.next = self.next + 1;
        assert(self.remaining() =~= old(self).remaining().drop_first());
        Some(frame)
    }

    /// The number of records left, as the lower and the upper bound.
    pub fn size_hint(&self) -> (hint: (usize, Option<usize>))
        ensures
            hint.0 == self.remaining().len(),
            hint.1 == Some(hint.0),
    {
        let left = if self.next <= self.frames.len() {
            self.frames.len() - self.next
        } else {
            0
        };
        (left, Some(left))
    }
}

/// There are no more video frames among some records than records.
pub proof fn lemma_video_count_bound(frames: Seq<Frame>)
    ensures
        video_count(frames) <= frames.len(),
    decreases frames.len(),
{
    if frames.len() > 0 {
        lemma_video_count_bound(frames.drop_last());
    }
}

/// The bytes of `n` records are `16 * n` bytes.
pub proof fn lemma_encode_index_len(frames: Seq<Frame>)
    ensures
        encode_index(frames).len() == 16 * frames.len(),
    decreases frames.len(),
{
    if frames.len() > 0 {
        lemma_encode_index_len(frames.drop_last());
        lemma_decode_encode(frames.last());
    }
}

/// Encoding a sequence of records and decoding the bytes gives the
/// sequence back.
pub proof fn lemma_decode_encode_index(frames: Seq<Frame>)
    ensures
        decode_index(encode_index(frames)) == frames,
    decreases frames.len(),
{
    lemma_encode_index_len(frames);
    if frames.len() > 0 {
        let head = frames.drop_last();
        let bytes = encode_index(frames);
        lemma_decode_encode_index(head);
        lemma_encode_index_len(head);
        lemma_decode_encode(frames.last());
        assert forall|i: int| 0 <= i < frames.len() implies decode_index(bytes)[i] == frames[i] by {
            if i < head.len() {
                assert(bytes.subrange(16 * i, 16 * i + 16) =~= encode_index(head).subrange(
                    16 * i,
                    16 * i + 16,
                ));
                assert(decode_index(encode_index(head))[i] == head[i]);
            } else {
                assert(bytes.subrange(16 * i, 16 * i + 16) =~= encode_record(frames.last()));
            }
        }
    }
    assert(decode_index(encode_index(frames)) =~= frames);
}

/// Decoding a region of whole records and encoding them gives the region
/// back.
pub proof fn lemma_encode_decode_index(bytes: Seq<u8>)
    requires
        bytes.len() % 16 == 0,
    ensures
        encode_index(decode_index(bytes)) == bytes,
    decreases bytes.len(),
{
    let frames = decode_index(bytes);
    if bytes.len() > 0 {
        let n = frames.len() as int;
        let head = bytes.subrange(0, bytes.len() - 16);
        lemma_encode_decode_index(head);
        assert forall|i: int| 0 <= i < n - 1 implies #[trigger] decode_index(head)[i]
            == frames[i] by {
            assert(head.subrange(16 * i, 16 * i + 16) =~= bytes.subrange(16 * i, 16 * i + 16));
        }
        assert(decode_index(head) =~= frames.drop_last());
        let tail = bytes.subrange(16 * (n - 1), 16 * (n - 1) + 16);
        lemma_encode_decode(tail);
        assert(encode_index(frames) =~= head + tail);
        assert(head + tail =~= bytes);
    } else {
        assert(encode_index(frames) =~= bytes);
    }
}

} // verus!
