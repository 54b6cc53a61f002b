//! The walk over the top-level chunks: it checks the structure of the
//! container and finds where the main header, the movie data and the frame
//! index lie.

use crate::cursor::{Cursor, Seek};
use crate::endian::{le_u32, read_u32_le};
use crate::error::{AviError, Tag};
use vstd::prelude::*;

verus! {

/// The number of bytes of the main header, its size field included.
pub const HEADER_SIZE: usize = 44;

/// The number of bytes of one record of the frame index.
pub const FRAME_SIZE: usize = 16;

/// Whether the four bytes at `pos` are there and spell `tag`.
pub open spec fn tag_at(data: Seq<u8>, pos: int, tag: Tag) -> bool {
    0 <= pos && pos + 4 <= data.len() && data.subrange(pos, pos + 4) == tag.spec_bytes()
}

/// Whether a `LIST` or a `JUNK` chunk starts at `pos`.
pub open spec fn wrapper_at(data: Seq<u8>, pos: int) -> bool {
    tag_at(data, pos, Tag::List) || tag_at(data, pos, Tag::Junk)
}

/// The little-endian number in the four bytes at `pos`.
pub open spec fn size_at(data: Seq<u8>, pos: int) -> int {
    le_u32(data.subrange(pos, pos + 4)) as int
}

/// Where the chunk after the one at `pos` starts: past the tag, the size
/// field and as many bytes as the size field says.
pub open spec fn after(data: Seq<u8>, pos: int) -> int {
    pos + 8 + size_at(data, pos + 4)
}

/// Why the walk cannot pass the `LIST` or `JUNK` chunk at `pos` and read the
/// tag behind it, if it cannot: the size field or the next tag lies beyond
/// the buffer, or the size cannot be applied to the position.
pub open spec fn step_error(data: Seq<u8>, pos: int) -> Option<AviError> {
    if pos + 8 > data.len() {
        Some(AviError::OutOfRange)
    } else if size_at(data, pos + 4) > isize::MAX || after(data, pos) > usize::MAX {
        Some(AviError::Overflow)
    } else if after(data, pos) + 4 > data.len() {
        Some(AviError::OutOfRange)
    } else {
        None
    }
}

/// The position of the first tag from `pos` on that is neither `LIST` nor
/// `JUNK`, or the failure that the walk towards it meets.
pub open spec fn chain_end(data: Seq<u8>, pos: int) -> Result<int, AviError>
    decreases data.len() - pos,
{
    if pos < 0 || pos + 4 > data.len() {
        Err(AviError::OutOfRange)
    } else if !wrapper_at(data, pos) {
        Ok(pos)
    } else {
        match step_error(data, pos) {
            Some(e) => Err(e),
            None => chain_end(data, after(data, pos)),
        }
    }
}

/// What the structural check says of a buffer: `RIFF` at 0, `AVI ` at 8, a
/// chain of `LIST` and `JUNK` chunks from 12 on, and `idx1` right behind it.
/// A missing tag is reported with the offset at which it was looked for.
pub open spec fn check_format(data: Seq<u8>) -> Result<(), AviError> {
    if data.len() < 4 {
        Err(AviError::OutOfRange)
    } else if !tag_at(data, 0, Tag::Riff) {
        Err(AviError::MalformedContainer { expected: Tag::Riff, offset: 0 })
    } else if data.len() < 12 {
        Err(AviError::OutOfRange)
    } else if !tag_at(data, 8, Tag::Avi) {
        Err(AviError::MalformedContainer { expected: Tag::Avi, offset: 8 })
    } else {
        match chain_end(data, 12) {
            Err(e) => Err(e),
            Ok(end) => if tag_at(data, end, Tag::Idx1) {
                Ok(())
            } else {
                Err(AviError::MalformedContainer { expected: Tag::Idx1, offset: end as usize })
            },
        }
    }
}

/// A buffer passes the structural check exactly when `RIFF`, `AVI ` and
/// `idx1` stand in their places. One that does not start with `RIFF` is
/// rejected at offset 0, one without `AVI ` at offset 8, and one whose chain
/// ends on another tag than `idx1` at the offset where the chain ends.
pub proof fn lemma_structural_rejection(data: Seq<u8>)
    ensures
        check_format(data) is Ok <==> tag_at(data, 0, Tag::Riff) && tag_at(data, 8, Tag::Avi)
            && chain_end(data, 12) is Ok && tag_at(data, chain_end(data, 12)->Ok_0, Tag::Idx1),
        data.len() >= 4 && !tag_at(data, 0, Tag::Riff) ==> check_format(data) == Err::<
            (),
            AviError,
        >(AviError::MalformedContainer { expected: Tag::Riff, offset: 0 }),
        data.len() >= 12 && tag_at(data, 0, Tag::Riff) && !tag_at(data, 8, Tag::Avi)
            ==> check_format(data) == Err::<(), AviError>(
            AviError::MalformedContainer { expected: Tag::Avi, offset: 8 },
        ),
        tag_at(data, 0, Tag::Riff) && tag_at(data, 8, Tag::Avi) && chain_end(data, 12) is Ok
            && !tag_at(data, chain_end(data, 12)->Ok_0, Tag::Idx1) ==> check_format(data) == Err::<
            (),
            AviError,
        >(
            AviError::MalformedContainer {
                expected: Tag::Idx1,
                offset: chain_end(data, 12)->Ok_0 as usize,
            },
        ),
{
}

/// The position of the type tag of the last chunk in the chain from `pos`
/// on whose type is `kind`; `found` where the chain holds none.
pub open spec fn last_list(data: Seq<u8>, pos: int, kind: Tag, found: Option<int>) -> Option<int>
    decreases data.len() - pos,
{
    if 0 <= pos && wrapper_at(data, pos) && step_error(data, pos) is None {
        last_list(
            data,
            after(data, pos),
            kind,
            if tag_at(data, pos + 8, kind) {
                Some(pos + 8)
            } else {
                found
            },
        )
    } else {
        found
    }
}

/// Where the parts of a container lie in its buffer.
#[derive(Clone, Copy, Debug, PartialEq, Eq, Structural)]
pub struct Layout {
    /// The offset of the main header: of its size field, which the fields
    /// follow. It is 0 where the chain holds no `hdrl` list.
    pub header: usize,
    /// The offset of the `movi` tag, or 0 where the chain holds no `movi`
    /// list.
    pub movi: usize,
    /// The offset of the first record of the frame index.
    pub index_start: usize,
    /// The offset behind the last record of the frame index.
    pub index_end: usize,
}

/// The offset of the main header: eight bytes behind the last `hdrl` tag of
/// the chain, or 0 where the chain holds no `hdrl` list.
pub open spec fn header_offset(data: Seq<u8>) -> int {
    match last_list(data, 12, Tag::Hdrl, None) {
        Some(tag) => tag + 8,
        None => 0,
    }
}

/// The offset of the last `movi` tag of the chain, or 0 where the chain
/// holds no `movi` list.
pub open spec fn movi_offset(data: Seq<u8>) -> int {
    match last_list(data, 12, Tag::Movi, None) {
        Some(tag) => tag,
        None => 0,
    }
}

/// The layout of a buffer, or the reason why it has none: it fails the
/// structural check, or the index chunk or the 44 bytes of the header reach
/// beyond the buffer. The index region is as long as the size field of
/// `idx1` says, whether or not that is a whole number of records.
pub open spec fn layout_of(data: Seq<u8>) -> Result<Layout, AviError> {
    match check_format(data) {
        Err(e) => Err(e),
        Ok(_) => {
            let idx = chain_end(data, 12)->Ok_0;
            if idx + 8 > data.len() || idx + 8 + size_at(data, idx + 4) > data.len() {
                Err(AviError::OutOfRange)
            } else if header_offset(data) + HEADER_SIZE > data.len() {
                Err(AviError::OutOfRange)
            } else {
                Ok(
                    (Layout {
                        header: header_offset(data) as usize,
                        movi: movi_offset(data) as usize,
                        index_start: (idx + 8) as usize,
                        index_end: (idx + 8 + size_at(data, idx + 4)) as usize,
                    }),
                )
            }
        },
    }
}

/// The layout of a buffer that is complete, or the reason why it has none:
/// it has no layout at all, the chain holds no `hdrl` or no `movi` list, or
/// the index region is no whole number of records.
pub open spec fn strict_layout_of(data: Seq<u8>) -> Result<Layout, AviError> {
    match layout_of(data) {
        Err(e) => Err(e),
        Ok(l) => if last_list(data, 12, Tag::Hdrl, None) is None {
            Err(AviError::MissingChunk { expected: Tag::Hdrl })
        } else if last_list(data, 12, Tag::Movi, None) is None {
            Err(AviError::MissingChunk { expected: Tag::Movi })
        } else if (l.index_end - l.index_start) % (FRAME_SIZE as int) != 0 {
            Err(AviError::TruncatedIndex)
        } else {
            Ok(l)
        },
    }
}

/// Where a chain ends, it ends at or behind its start, on four bytes that
/// lie in the buffer and spell neither `LIST` nor `JUNK`.
pub proof fn lemma_chain_end(data: Seq<u8>, pos: int)
    requires
        0 <= pos,
    ensures
        chain_end(data, pos) is Ok ==> pos <= chain_end(data, pos)->Ok_0 && chain_end(
            data,
            pos,
        )->Ok_0 + 4 <= data.len() && !wrapper_at(data, chain_end(data, pos)->Ok_0),
    decreases data.len() - pos,
{
    if pos + 4 <= data.len() && wrapper_at(data, pos) && step_error(data, pos) is None {
        lemma_chain_end(data, after(data, pos));
    }
}

/// What holds of a type tag that the walk has kept: it lies eight bytes
/// behind the start of a `LIST` or `JUNK` chunk, spells `kind`, and does not
/// lie behind `end`.
pub open spec fn kept(data: Seq<u8>, kind: Tag, found: Option<int>, end: int) -> bool {
    found is Some ==> wrapper_at(data, found->Some_0 - 8) && tag_at(data, found->Some_0, kind)
        && found->Some_0 <= end
}

/// The tag that `last_list` finds is the type tag of a chunk of the chain,
/// and the chain ends behind it.
pub proof fn lemma_last_list(data: Seq<u8>, pos: int, kind: Tag, found: Option<int>)
    requires
        0 <= pos,
        chain_end(data, pos) is Ok,
        kept(data, kind, found, pos),
    ensures
        kept(data, kind, last_list(data, pos, kind, found), chain_end(data, pos)->Ok_0),
    decreases data.len() - pos,
{
    lemma_chain_end(data, pos);
    if wrapper_at(data, pos) && step_error(data, pos) is None {
        let next = if tag_at(data, pos + 8, kind) {
            Some(pos + 8)
        } else {
            found
        };
        lemma_last_list(data, after(data, pos), kind, next);
    }
}

/// In the layout of a buffer every part lies within the buffer: the 44
/// bytes of the header, and the index region, right behind the size field
/// of `idx1` and as long as that field says. Where the chain holds a `hdrl`
/// list, the header follows its type tag by eight bytes; where it holds a
/// `movi` list, the `movi` tag lies before `idx1`. Either is 0 exactly where
/// the chain holds no such list. The offsets of the layout are the offsets
/// found, none cut short by the width of an offset.
pub proof fn lemma_layout_bounds(data: Seq<u8>)
    requires
        data.len() <= usize::MAX,
        layout_of(data) is Ok,
    ensures
        ({
            let l = layout_of(data)->Ok_0;
            let hdrl = last_list(data, 12, Tag::Hdrl, None);
            let movi = last_list(data, 12, Tag::Movi, None);
            &&& l.header == header_offset(data)
            &&& l.movi == movi_offset(data)
            &&& l.header + HEADER_SIZE <= data.len()
            &&& hdrl is None <==> l.header == 0
            &&& hdrl is Some ==> 28 <= l.header && tag_at(data, l.header - 8, Tag::Hdrl)
                && wrapper_at(data, l.header - 16)
            &&& movi is None <==> l.movi == 0
            &&& movi is Some ==> 20 <= l.movi && l.movi + 8 <= l.index_start && tag_at(
                data,
                l.movi as int,
                Tag::Movi,
            ) && wrapper_at(data, l.movi - 8)
            &&& tag_at(data, l.index_start - 8, Tag::Idx1)
            &&& chain_end(data, 12) == Ok::<int, AviError>(l.index_start - 8)
            &&& l.index_end == l.index_start + size_at(data, l.index_start - 4)
            &&& l.index_start <= l.index_end <= data.len()
        }),
{
    lemma_chain_end(data, 12);
    lemma_last_list(data, 12, Tag::Hdrl, None);
    lemma_last_list(data, 12, Tag::Movi, None);
}

/// The signed distance that skips `size` bytes, where the platform's signed
/// offsets can hold it.
fn distance(size: u32) -> (r: Result<isize, AviError>)
    ensures
        size <= isize::MAX ==> r == Ok::<isize, AviError>(size as isize),
        size > isize::MAX ==> r == Err::<isize, AviError>(AviError::Overflow),
{
    match isize::try_from(size) {
        Ok(d) => Ok(d),
        Err(_) => Err(AviError::Overflow),
    }
}

/// Checks the structure of a container: `RIFF`, four bytes that are not
/// looked at, `AVI `, then a chain of `LIST` and `JUNK` chunks, each skipped
/// by its size, and `idx1` as the first tag that is neither.
pub fn is_formatted(file: &[u8]) -> (r: Result<(), AviError>)
    ensures
        r == check_format(file@),
{
    let mut reader = Cursor::new(file);
    let buf = reader.read_exact(4)?;
    if !Tag::Riff.matches(buf.as_slice()) {
        return Err(AviError::MalformedContainer { expected: Tag::Riff, offset: 0 });
    }
    reader.seek(Seek::Current(4))?;
    let buf = reader.read_exact(4)?;
    if !Tag::Avi.matches(buf.as_slice()) {
        return Err(AviError::MalformedContainer { expected: Tag::Avi, offset: 8 });
    }
    let mut at: usize = reader.position();
    let mut buf = reader.read_exact(4)?;
    while Tag::List.matches(buf.as_slice()) || Tag::Junk.matches(buf.as_slice())
        invariant
            reader.bytes() == file@,
            tag_at(file@, 0, Tag::Riff),
            tag_at(file@, 8, Tag::Avi),
            12 <= at,
            at + 4 <= file@.len(),
            reader.pos() == at + 4,
            buf@ == file@.subrange(at as int, at + 4),
            chain_end(file@, 12) == chain_end(file@, at as int),
        decreases file@.len() - at,
    {
        let size = reader.read_exact(4)?;
        let s = read_u32_le(size.as_slice());
        assert(size@.subrange(0, 4) =~= size@);
        let d = distance(s)?;
        reader.seek(Seek::Current(d))?;
        at = reader.position();
        buf = reader.read_exact(4)?;
    }
    if !Tag::Idx1.matches(buf.as_slice()) {
        return Err(AviError::MalformedContainer { expected: Tag::Idx1, offset: at });
    }
    Ok(())
}

/// Finds the parts of a container. The structure is checked first. Then the
/// chain of `LIST` and `JUNK` chunks is walked once more from offset 12, and
/// the type tag of each is looked at: the last `hdrl` and the last `movi`
/// are kept, and an offset stays 0 where there is none. The size field
/// behind `idx1` bounds the frame index.
pub fn locate(data: &[u8]) -> (r: Result<Layout, AviError>)
    ensures
        r == layout_of(data@),
        r is Ok ==> r->Ok_0.header == header_offset(data@) && r->Ok_0.movi == movi_offset(data@)
            && r->Ok_0.index_start == chain_end(data@, 12)->Ok_0 + 8 && r->Ok_0.index_end
            == r->Ok_0.index_start + size_at(data@, r->Ok_0.index_start - 4)
            && r->Ok_0.index_end <= data@.len(),
{
    is_formatted(data)?;
    let mut reader = Cursor::new(data);
    let mut pos_of_movi: Option<usize> = None;
    let mut pos_of_header: Option<usize> = None;
    reader.seek(Seek::Start(12))?;
    let mut at: usize = reader.position();
    let mut buf = reader.read_exact(4)?;
    let ghost mut movi: Option<int> = None;
    let ghost mut hdrl: Option<int> = None;
    while Tag::List.matches(buf.as_slice()) || Tag::Junk.matches(buf.as_slice())
        invariant
            reader.bytes() == data@,
            check_format(data@) is Ok,
            12 <= at,
            at + 4 <= data@.len(),
            reader.pos() == at + 4,
            buf@ == data@.subrange(at as int, at + 4),
            chain_end(data@, 12) == chain_end(data@, at as int),
            last_list(data@, 12, Tag::Movi, None) == last_list(data@, at as int, Tag::Movi, movi),
            last_list(data@, 12, Tag::Hdrl, None) == last_list(data@, at as int, Tag::Hdrl, hdrl),
            movi is Some <==> pos_of_movi is Some,
            hdrl is Some <==> pos_of_header is Some,
            movi is Some ==> movi->Some_0 == pos_of_movi->Some_0 && movi->Some_0 + 4
                <= data@.len(),
            hdrl is Some ==> hdrl->Some_0 == pos_of_header->Some_0 && hdrl->Some_0 + 4
                <= data@.len(),
        decreases data@.len() - at,
    {
        let size = reader.read_exact(4)?;
        let s = read_u32_le(size.as_slice());
        assert(size@.subrange(0, 4) =~= size@);
        let inner = reader.read_exact(4)?;
        if Tag::Movi.matches(inner.as_slice()) {
            pos_of_movi = Some(reader.position() - 4);
            proof {
                movi = Some(at + 8);
            }
        }
        if Tag::Hdrl.matches(inner.as_slice()) {
            pos_of_header = Some(reader.position() - 4);
            proof {
                hdrl = Some(at + 8);
            }
        }
        let d = distance(s)?;
        reader.seek(Seek::Current(d - 4))?;
        at = reader.position();
        buf = reader.read_exact(4)?;
    }
    let size = reader.read_exact(4)?;
    let s = read_u32_le(size.as_slice());
    assert(size@.subrange(0, 4) =~= size@);
    let index_start = reader.position();
    let index_len = match usize::try_from(s) {
        Ok(n) => n,
        Err(_) => { return Err(AviError::OutOfRange); },
    };
    if index_len > data.len() - index_start {
        return Err(AviError::OutOfRange);
    }
    let header = match pos_of_header {
        Some(tag) => {
            if data.len() - tag < 8 + HEADER_SIZE {
                return Err(AviError::OutOfRange);
            }
            tag + 8
        },
        None => {
            if data.len() < HEADER_SIZE {
                return Err(AviError::OutOfRange);
            }
            0
        },
    };
    let movi = match pos_of_movi {
        Some(tag) => tag,
        None => 0,
    };
    Ok(Layout { header, movi, index_start, index_end: index_start + index_len })
}

/// Finds the parts of a container as `locate` does, and asks for more: a
/// `hdrl` list, a `movi` list, and an index of whole records.
pub fn locate_strict(data: &[u8]) -> (r: Result<Layout, AviError>)
    ensures
        r == strict_layout_of(data@),
{
    let layout = locate(data)?;
    let len = data.len();
    proof {
        lemma_layout_bounds(data@);
    }
    assert(layout.index_start <= layout.index_end <= len);
    if layout.header == 0 {
        return Err(AviError::MissingChunk { expected: Tag::Hdrl });
    }
    if layout.movi == 0 {
        return Err(AviError::MissingChunk { expected: Tag::Movi });
    }
    if (layout.index_end - layout.index_start) % FRAME_SIZE != 0 {
        return Err(AviError::TruncatedIndex);
    }
    Ok(layout)
}

} // verus!
