//! The main header of the container.

use crate::endian::{le_u32, read_u32_le};
use vstd::prelude::*;
use vstd::slice::slice_subrange;

verus! {

/// The main header: global information on the file. On disk it is a size
/// field and ten further fields, each a little-endian 32-bit number, read by
/// position. The size field is read over and not kept.
#[derive(Clone, Copy, Debug, PartialEq, Eq, Structural)]
pub struct Header {
    /// The number of microseconds between frames.
    pub microseconds_per_frame: u32,
    /// The approximate maximum data rate of the file.
    pub max_bytes_per_second: u32,
    /// The alignment for data, in bytes.
    pub padding_granularity: u32,
    /// The flags of the file: whether it has an index, is interleaved, and
    /// so on.
    pub flags: u32,
    /// The total number of frames in the file.
    pub total_frames: u32,
    /// The initial frame for interleaved files.
    pub initial_frames: u32,
    /// The number of streams in the file.
    pub number_of_streams: u32,
    /// The suggested buffer size for reading the file.
    pub suggested_buffer_size: u32,
    /// The width of the picture in pixels.
    pub width: u32,
    /// The height of the picture in pixels.
    pub height: u32,
}

/// The field with the given index in the header's bytes: the little-endian
/// number at four times the index, or zero where the bytes end before it.
pub open spec fn field_at(bytes: Seq<u8>, index: int) -> u32 {
    if 4 * index + 4 <= bytes.len() {
        le_u32(bytes.subrange(4 * index, 4 * index + 4))
    } else {
        0
    }
}

/// The header that the bytes spell. Field 0 is the size of the structure.
pub open spec fn decode_header(bytes: Seq<u8>) -> Header {
    Header {
        microseconds_per_frame: field_at(bytes, 1),
        max_bytes_per_second: field_at(bytes, 2),
        padding_granularity: field_at(bytes, 3),
        flags: field_at(bytes, 4),
        total_frames: field_at(bytes, 5),
        initial_frames: field_at(bytes, 6),
        number_of_streams: field_at(bytes, 7),
        suggested_buffer_size: field_at(bytes, 8),
        width: field_at(bytes, 9),
        height: field_at(bytes, 10),
    }
}

/// Reads one field of the header.
fn field(bytes: &[u8], index: usize) -> (value: u32)
    requires
        index <= 10,
    ensures
        value == field_at(bytes@, index as int),
{
    let start = 4 * index;
    if bytes.len() < 4 || start > bytes.len() - 4 {
        return 0;
    }
    let rest = slice_subrange(bytes, start, bytes.len());
    assert(rest@.subrange(0, 4) =~= bytes@.subrange(4 * index, 4 * index + 4));
    read_u32_le(rest)
}

impl Header {
    /// Decodes the header from its bytes. The values are taken as they
    /// stand, whatever they say.
    pub fn new(bytes: &[u8]) -> (header: Self)
        ensures
            header == decode_header(bytes@),
    {
        Self {
            microseconds_per_frame: field(bytes, 1),
            max_bytes_per_second: field(bytes, 2),
            padding_granularity: field(bytes, 3),
            flags: field(bytes, 4),
            total_frames: field(bytes, 5),
            initial_frames: field(bytes, 6),
            number_of_streams: field(bytes, 7),
            suggested_buffer_size: field(bytes, 8),
            width: field(bytes, 9),
            height: field(bytes, 10),
        }
    }
}

} // verus!
