//! The file header: a NUL-terminated format name, the identifier size and a timestamp.
use vstd::prelude::*;
use vstd::slice::slice_subrange;
use crate::errors::HprofSlurpError;
use crate::grammar::{agrees, need_len, Frame, Step};
use crate::primitives::{parse_u32, parse_u64, u32_at, u64_at};
use crate::strings::{lossy_string, utf8_lossy};

verus! {

/// The exact length of the header of a dump with 64-bit identifiers.
pub const FILE_HEADER_LENGTH: usize = 31;

#[derive(Debug, PartialEq, Eq)]
pub struct FileHeader {
    pub format: String,
    pub size_pointers: u32,
    pub timestamp: u64,
}

/// `z` is the position of the first NUL byte of `b`.
pub open spec fn is_first_nul(b: Seq<u8>, z: int) -> bool {
    0 <= z < b.len() && b[z] == 0 && forall|j: int| 0 <= j < z ==> b[j] != 0
}

pub open spec fn has_nul(b: Seq<u8>) -> bool {
    exists|z: int| 0 <= z < b.len() && b[z] == 0
}

pub open spec fn first_nul(b: Seq<u8>) -> int {
    choose|z: int| is_first_nul(b, z)
}

/// Frame of a header: up to its NUL, then 4 bytes of identifier size and 8 of timestamp.
pub open spec fn header_frame(b: Seq<u8>) -> Frame {
    if !has_nul(b) {
        Frame::Need(1)
    } else {
        need_len(b, (first_nul(b) + 13) as nat)
    }
}

/// `h` is the header encoded at the start of `b`.
pub open spec fn header_matches(b: Seq<u8>, h: FileHeader) -> bool {
    let z = first_nul(b);
    &&& h.format@ == utf8_lossy(b.subrange(0, z))
    &&& h.size_pointers == u32_at(b, z + 1)
    &&& h.timestamp == u64_at(b, z + 5)
}

proof fn lemma_first_nul(b: Seq<u8>, z: int)
    requires
        is_first_nul(b, z),
    ensures
        has_nul(b),
        first_nul(b) == z,
{
    let w = first_nul(b);
    assert(is_first_nul(b, w));
    if w < z {
        assert(b[w] != 0);
    } else if z < w {
        assert(b[z] != 0);
    }
}

impl FileHeader {
    pub fn from_bytes(format_b: &[u8], size_pointers: u32, timestamp: u64) -> (r: Self)
        ensures
            r.format@ == utf8_lossy(format_b@),
            r.size_pointers == size_pointers,
            r.timestamp == timestamp,
    {
        FileHeader { format: lossy_string(format_b), size_pointers, timestamp }
    }
}

/// Decodes the header at the start of `i`.
pub fn parse_file_header(i: &[u8]) -> (r: Step<FileHeader>)
    ensures
        agrees(header_frame(i@), r),
        r matches Step::Done(h, _) ==> header_matches(i@, h),
{
    let mut z: usize = 0;
    while z < i.len() && i[z] != 0
        invariant
            z <= i@.len(),
            forall|j: int| 0 <= j < z ==> i@[j] != 0,
        decreases i@.len() - z,
    {
        z = z + 1;
    }
    if z == i.len() {
        return Step::NeedMore(1);
    }
    proof {
        lemma_first_nul(i@, z as int);
    }
    if i.len() - z < 13 {
        return Step::NeedMore((13 - (i.len() - z)) as u64);
    }
    let h = FileHeader::from_bytes(slice_subrange(i, 0, z), parse_u32(i, z + 1), parse_u64(i, z + 5));
    Step::Done(h, z + 13)
}

/// Checks the header bytes of a dump: only a 31-byte header of a dump with 64-bit
/// identifiers is accepted.
pub fn slurp_header(header_buffer: &[u8]) -> (r: Result<FileHeader, HprofSlurpError>)
    ensures
        header_buffer@.len() < FILE_HEADER_LENGTH ==> r matches Err(
            HprofSlurpError::InvalidHeaderSize,
        ),
        header_buffer@.len() >= FILE_HEADER_LENGTH ==> {
            let b = header_buffer@.subrange(0, FILE_HEADER_LENGTH as int);
            let z = first_nul(b);
            match header_frame(b) {
                Frame::Len(n) => {
                    let size = u32_at(b, z + 1);
                    if size != 4 && size != 8 {
                        r matches Err(HprofSlurpError::InvalidIdSize)
                    } else if size == 4 {
                        r matches Err(HprofSlurpError::UnsupportedIdSize { .. })
                    } else if n < FILE_HEADER_LENGTH {
                        r matches Err(HprofSlurpError::InvalidHeaderSize)
                    } else {
                        r matches Ok(h) && header_matches(b, h)
                    }
                },
                _ => r matches Err(HprofSlurpError::InvalidHprofFile { .. }),
            }
        },
{
    if header_buffer.len() < FILE_HEADER_LENGTH {
        return Err(HprofSlurpError::InvalidHeaderSize);
    }
    let b = slice_subrange(header_buffer, 0, FILE_HEADER_LENGTH);
    match parse_file_header(b) {
        Step::Done(header, n) => {
            let id_size = header.size_pointers;
            if id_size != 4 && id_size != 8 {
                Err(HprofSlurpError::InvalidIdSize)
            } else if id_size == 4 {
                Err(
                    HprofSlurpError::UnsupportedIdSize {
                        message: String::from_str("32 bits heap dumps are not supported yet"),
                    },
                )
            } else if n < FILE_HEADER_LENGTH {
                Err(HprofSlurpError::InvalidHeaderSize)
            } else {
                Ok(header)
            }
        },
        _ => Err(
            HprofSlurpError::InvalidHprofFile {
                message: String::from_str("incomplete file header"),
            },
        ),
    }
}

} // verus!
