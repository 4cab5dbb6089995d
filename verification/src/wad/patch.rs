//! The header of a patch, the picture format of the archive: 8 bytes at the
//! start of the lump's payload.

use vstd::prelude::*;

use super::bytes::{le_i16, le_u16, ByteView};
use super::error::{outcome, truncated, WadError, WadErrorView};

verus! {

/// Size in bytes of a patch header.
pub const PATCH_HEADER_SIZE: usize = 8;

/// The size of a picture and where its origin lies.
#[derive(Debug, Clone, Copy, PartialEq, Eq)]
pub struct Header {
    pub width: u16,
    pub height: u16,
    pub left_offset: i16,
    pub top_offset: i16,
}

/// The patch header that the first 8 bytes of `data` hold: width and height
/// unsigned, the two offsets signed, each 16-bit little-endian.
pub open spec fn patch_header_spec(data: Seq<u8>) -> Result<Header, WadErrorView> {
    if data.len() < 8 {
        Err(truncated(8, data.len()))
    } else {
        Ok(
            Header {
                width: le_u16(data.subrange(0, 2)) as u16,
                height: le_u16(data.subrange(2, 4)) as u16,
                left_offset: le_i16(data.subrange(4, 6)) as i16,
                top_offset: le_i16(data.subrange(6, 8)) as i16,
            },
        )
    }
}

impl Header {
    /// Decodes the patch header at the start of `data`.
    pub fn try_from(data: &[u8]) -> (out: Result<Header, WadError>)
        ensures
            outcome(out) == patch_header_spec(data@),
    {
        let bytes = match ByteView::new(data).take(0, PATCH_HEADER_SIZE) {
            Ok(bytes) => bytes,
            Err(e) => { return Err(e); },
        };
        let fields = ByteView::new(bytes);
        proof {
            assert(bytes@.subrange(0, 2) =~= data@.subrange(0, 2));
            assert(bytes@.subrange(2, 4) =~= data@.subrange(2, 4));
            assert(bytes@.subrange(4, 6) =~= data@.subrange(4, 6));
            assert(bytes@.subrange(6, 8) =~= data@.subrange(6, 8));
        }
        let width = match fields.read_u16(0) {
            Ok(v) => v,
            Err(e) => { return Err(e); },
        };
        let height = match fields.read_u16(2) {
            Ok(v) => v,
            Err(e) => { return Err(e); },
        };
        let left_offset = match fields.read_i16(4) {
            Ok(v) => v,
            Err(e) => { return Err(e); },
        };
        let top_offset = match fields.read_i16(6) {
            Ok(v) => v,
            Err(e) => { return Err(e); },
        };
        Ok(Header { width, height, left_offset, top_offset })
    }
}

/// A buffer too short for a patch header is truncated: 8 bytes were asked for, and
/// the error says how many there were.
pub proof fn lemma_short_patch_is_truncated(data: Seq<u8>)
    requires
        data.len() < 8,
    ensures
        patch_header_spec(data) == Err::<Header, WadErrorView>(truncated(8, data.len())),
{
}

/// Two decodings of one buffer agree: the record, or the error, is a function
/// of the bytes.
pub proof fn lemma_patch_is_deterministic(
    data: Seq<u8>,
    first: Result<Header, WadError>,
    second: Result<Header, WadError>,
)
    requires
        outcome(first) == patch_header_spec(data),
        outcome(second) == patch_header_spec(data),
    ensures
        outcome(first) == outcome(second),
{
}

} // verus!
