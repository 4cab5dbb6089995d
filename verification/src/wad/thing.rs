//! A thing: one object placed on a map. Ten bytes, five fields of two bytes.

use vstd::prelude::*;

use super::bytes::{le_i16, ByteView};
use super::error::{outcome, truncated, WadError, WadErrorView};

verus! {

/// Size in bytes of a thing record.
pub const THING_SIZE: usize = 10;

/// Where a map object stands, which way it faces, what it is, and its flags.
/// Each field is as wide as it is on disk: a signed 16-bit integer.
#[derive(Debug, Clone, Copy, PartialEq, Eq)]
pub struct Thing {
    pub x: i16,
    pub y: i16,
    pub angle: i16,
    pub thing_type: i16,
    pub flags: i16,
}

/// The thing that the first 10 bytes of `data` hold: five signed 16-bit
/// little-endian integers, in the order of the fields.
pub open spec fn thing_spec(data: Seq<u8>) -> Result<Thing, WadErrorView> {
    if data.len() < 10 {
        Err(truncated(10, data.len()))
    } else {
        Ok(
            Thing {
                x: le_i16(data.subrange(0, 2)) as i16,
                y: le_i16(data.subrange(2, 4)) as i16,
                angle: le_i16(data.subrange(4, 6)) as i16,
                thing_type: le_i16(data.subrange(6, 8)) as i16,
                flags: le_i16(data.subrange(8, 10)) as i16,
            },
        )
    }
}

impl Thing {
    /// Decodes the thing at the start of `data`.
    pub fn try_from(data: &[u8]) -> (out: Result<Thing, WadError>)
        ensures
            outcome(out) == thing_spec(data@),
    {
        let bytes = match ByteView::new(data).take(0, THING_SIZE) {
            Ok(bytes) => bytes,
            Err(e) => { return Err(e); },
        };
        let fields = ByteView::new(bytes);
        proof {
            assert(bytes@.subrange(0, 2) =~= data@.subrange(0, 2));
            assert(bytes@.subrange(2, 4) =~= data@.subrange(2, 4));
            assert(bytes@.subrange(4, 6) =~= data@.subrange(4, 6));
            assert(bytes@.subrange(6, 8) =~= data@.subrange(6, 8));
            assert(bytes@.subrange(8, 10) =~= data@.subrange(8, 10));
        }
        let x = match fields.read_i16(0) {
            Ok(v) => v,
            Err(e) => { return Err(e); },
        };
        let y = match fields.read_i16(2) {
            Ok(v) => v,
            Err(e) => { return Err(e); },
        };
        let angle = match fields.read_i16(4) {
            Ok(v) => v,
            Err(e) => { return Err(e); },
        };
        let thing_type = match fields.read_i16(6) {
            Ok(v) => v,
            Err(e) => { return Err(e); },
        };
        let flags = match fields.read_i16(8) {
            Ok(v) => v,
            Err(e) => { return Err(e); },
        };
        Ok(Thing { x, y, angle, thing_type, flags })
    }
}

/// A buffer too short for a thing is truncated: 10 bytes were asked for, and
/// the error says how many there were.
pub proof fn lemma_short_thing_is_truncated(data: Seq<u8>)
    requires
        data.len() < 10,
    ensures
        thing_spec(data) == Err::<Thing, WadErrorView>(truncated(10, data.len())),
{
}

/// Two decodings of one buffer agree: the record, or the error, is a function
/// of the bytes.
pub proof fn lemma_thing_is_deterministic(
    data: Seq<u8>,
    first: Result<Thing, WadError>,
    second: Result<Thing, WadError>,
)
    requires
        outcome(first) == thing_spec(data),
        outcome(second) == thing_spec(data),
    ensures
        outcome(first) == outcome(second),
{
}

} // verus!
