//! The four-character tags of the container and the failures of its codec.

use vstd::prelude::*;

verus! {

/// A four-character code that the container's structure is built from.
#[derive(Clone, Copy, Debug, PartialEq, Eq, Structural)]
pub enum Tag {
    /// `RIFF`, the first four bytes of the file.
    Riff,
    /// `AVI ` (with its trailing space), the form type of the file.
    Avi,
    /// `LIST`, a chunk whose body holds further chunks.
    List,
    /// `JUNK`, a padding chunk.
    Junk,
    /// `hdrl`, the type of the list that holds the main header.
    Hdrl,
    /// `movi`, the type of the list that holds the movie data.
    Movi,
    /// `idx1`, the chunk that holds the frame index.
    Idx1,
}

impl Tag {
    /// The four ASCII bytes of the tag.
    pub open spec fn spec_bytes(self) -> Seq<u8> {
        match self {
            Tag::Riff => seq![0x52u8, 0x49u8, 0x46u8, 0x46u8],
            Tag::Avi => seq![0x41u8, 0x56u8, 0x49u8, 0x20u8],
            Tag::List => seq![0x4cu8, 0x49u8, 0x53u8, 0x54u8],
            Tag::Junk => seq![0x4au8, 0x55u8, 0x4eu8, 0x4bu8],
            Tag::Hdrl => seq![0x68u8, 0x64u8, 0x72u8, 0x6cu8],
            Tag::Movi => seq![0x6du8, 0x6fu8, 0x76u8, 0x69u8],
            Tag::Idx1 => seq![0x69u8, 0x64u8, 0x78u8, 0x31u8],
        }
    }

    /// The four ASCII bytes of the tag.
    pub fn bytes(self) -> (b: [u8; 4])
        ensures
            b@ == self.spec_bytes(),
    {
        let b: [u8; 4] = match self {
            Tag::Riff => [0x52, 0x49, 0x46, 0x46],
            Tag::Avi => [0x41, 0x56, 0x49, 0x20],
            Tag::List => [0x4c, 0x49, 0x53, 0x54],
            Tag::Junk => [0x4a, 0x55, 0x4e, 0x4b],
            Tag::Hdrl => [0x68, 0x64, 0x72, 0x6c],
            Tag::Movi => [0x6d, 0x6f, 0x76, 0x69],
            Tag::Idx1 => [0x69, 0x64, 0x78, 0x31],
        };
        assert(b@ =~= self.spec_bytes());
        b
    }

    /// Whether `buf` holds exactly the four bytes of the tag. The comparison
    /// is byte for byte, so it tells upper case from lower case.
    pub fn matches(self, buf: &[u8]) -> (same: bool)
        ensures
            same == (buf@ == self.spec_bytes()),
    {
        let b = self.bytes();
        if buf.len() != 4 {
            return false;
        }
        let same = buf[0] == b[0] && buf[1] == b[1] && buf[2] == b[2] && buf[3] == b[3];
        assert(same == (buf@ =~= b@));
        same
    }
}

/// Why a buffer could not be decoded or rebuilt.
#[derive(Clone, Copy, Debug, PartialEq, Eq, Structural)]
pub enum AviError {
    /// A read asked for more bytes than remain after the current position.
    OutOfRange,
    /// A relative seek would move the position below zero or beyond what an
    /// offset can hold.
    Overflow,
    /// A structural tag is not where the format puts it: `expected` was
    /// looked for at byte `offset`.
    MalformedContainer { expected: Tag, offset: usize },
    /// The chain of lists holds no list of type `expected`. Only the strict
    /// check of the layout asks for one.
    MissingChunk { expected: Tag },
    /// The length of the index region is no multiple of the record size.
    /// Only the strict check of the layout asks for whole records.
    TruncatedIndex,
    /// A size or a count does not fit the 32 bits of its field.
    EncodeOverflow,
}

} // verus!
