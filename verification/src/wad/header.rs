//! The 12-byte archive header: a 4-byte magic, the number of lumps, and the
//! offset of the directory, both signed 32-bit little-endian.

use vstd::prelude::*;
use vstd::slice::slice_subrange;
use vstd::utf8::{decode_utf8_encode_utf8, valid_utf8};

use super::bytes::{le_i32, ByteView};
use super::error::{outcome, truncated, WadError, WadErrorView};
use super::text::{ascii_chars, decode_lossy, lemma_ascii_decodes_bytewise, text_of};

verus! {

broadcast use vstd::slice::group_slice_axioms;

/// Size in bytes of the archive header.
pub const WAD_HEADER_SIZE: usize = 12;

/// The kind of an archive, as its magic names it.
#[derive(Debug, Clone, Copy, PartialEq, Eq)]
pub enum WadType {
    /// A complete archive: magic `IWAD`.
    IWAD,
    /// An archive that patches another: magic `PWAD`.
    PWAD,
}

/// The bytes `I`, `W`, `A`, `D`.
pub open spec fn iwad_magic() -> Seq<u8> {
    seq![0x49u8, 0x57u8, 0x41u8, 0x44u8]
}

/// The bytes `P`, `W`, `A`, `D`.
pub open spec fn pwad_magic() -> Seq<u8> {
    seq![0x50u8, 0x57u8, 0x41u8, 0x44u8]
}

/// The kind that `magic` names, or the error that carries `magic` as text.
pub open spec fn wad_type_spec(magic: Seq<u8>) -> Result<WadType, WadErrorView> {
    if magic == iwad_magic() {
        Ok(WadType::IWAD)
    } else if magic == pwad_magic() {
        Ok(WadType::PWAD)
    } else {
        Err(WadErrorView::UnkownWadType(text_of(magic)))
    }
}

impl WadType {
    /// Decodes the magic of an archive. Only the exact bytes of `IWAD` and
    /// `PWAD` name a kind; anything else, of any length, is refused with its
    /// text.
    pub fn try_from(magic: &[u8]) -> (out: Result<WadType, WadError>)
        ensures
            outcome(out) == wad_type_spec(magic@),
    {
        if magic.len() == 4 && magic[1] == 0x57 && magic[2] == 0x41 && magic[3] == 0x44 {
            if magic[0] == 0x49 {
                assert(magic@ =~= iwad_magic());
                return Ok(WadType::IWAD);
            }
            if magic[0] == 0x50 {
                assert(magic@ =~= pwad_magic());
                return Ok(WadType::PWAD);
            }
        }
        assert(magic@ != iwad_magic() && magic@ != pwad_magic()) by {
            if magic@ == iwad_magic() {
                assert(magic@.len() == 4 && magic@[0] == 0x49 && magic@[1] == 0x57 && magic@[2]
                    == 0x41 && magic@[3] == 0x44);
            }
            if magic@ == pwad_magic() {
                assert(magic@.len() == 4 && magic@[0] == 0x50 && magic@[1] == 0x57 && magic@[2]
                    == 0x41 && magic@[3] == 0x44);
            }
        }
        Err(WadError::UnkownWadType(decode_lossy(magic)))
    }
}

/// What the header of an archive says.
#[derive(Debug, Clone, Copy, PartialEq, Eq)]
pub struct WadHeader {
    pub wad_type: WadType,
    /// The number of lumps that the archive declares. Not checked against the
    /// directory: a hostile archive may declare any number, a negative one too.
    pub lumps_number: i32,
    /// Where the directory starts, in bytes from the start of the archive.
    pub directory_offset: i32,
}

/// The header that the first 12 bytes of `data` hold. A buffer of fewer than
/// 12 bytes is truncated, whatever its magic; of 12 bytes or more, only the
/// magic can be refused.
pub open spec fn header_spec(data: Seq<u8>) -> Result<WadHeader, WadErrorView> {
    if data.len() < 12 {
        Err(truncated(12, data.len()))
    } else {
        match wad_type_spec(data.subrange(0, 4)) {
            Err(e) => Err(e),
            Ok(wad_type) => Ok(
                WadHeader {
                    wad_type,
                    lumps_number: le_i32(data.subrange(4, 8)) as i32,
                    directory_offset: le_i32(data.subrange(8, 12)) as i32,
                },
            ),
        }
    }
}

impl WadHeader {
    /// Decodes the header at the start of `data`.
    pub fn new(data: &[u8]) -> (out: Result<WadHeader, WadError>)
        ensures
            outcome(out) == header_spec(data@),
    {
        let bytes = match ByteView::new(data).take(0, WAD_HEADER_SIZE) {
            Ok(bytes) => bytes,
            Err(e) => { return Err(e); },
        };
        let fields = ByteView::new(bytes);
        proof {
            assert(bytes@.subrange(0, 4) =~= data@.subrange(0, 4));
            assert(bytes@.subrange(4, 8) =~= data@.subrange(4, 8));
            assert(bytes@.subrange(8, 12) =~= data@.subrange(8, 12));
        }
        let wad_type = match WadType::try_from(slice_subrange(bytes, 0, 4)) {
            Ok(wad_type) => wad_type,
            Err(e) => { return Err(e); },
        };
        let lumps_number = match fields.read_i32(4) {
            Ok(n) => n,
            Err(e) => { return Err(e); },
        };
        let directory_offset = match fields.read_i32(8) {
            Ok(n) => n,
            Err(e) => { return Err(e); },
        };
        Ok(WadHeader { wad_type, lumps_number, directory_offset })
    }
}

/// The two magics are the texts `IWAD` and `PWAD`.
pub proof fn lemma_magic_is_text()
    ensures
        text_of(iwad_magic()) == "IWAD"@,
        text_of(pwad_magic()) == "PWAD"@,
{
    reveal_strlit("IWAD");
    reveal_strlit("PWAD");
    lemma_ascii_decodes_bytewise(iwad_magic());
    lemma_ascii_decodes_bytewise(pwad_magic());
    assert(ascii_chars(iwad_magic()) =~= "IWAD"@);
    assert(ascii_chars(pwad_magic()) =~= "PWAD"@);
}

/// Comparing the bytes of a magic is comparing its text: a magic that is
/// valid UTF-8 names a kind exactly when its text is `IWAD` or `PWAD`.
pub proof fn lemma_kind_follows_text(magic: Seq<u8>)
    requires
        valid_utf8(magic),
    ensures
        magic == iwad_magic() <==> text_of(magic) == "IWAD"@,
        magic == pwad_magic() <==> text_of(magic) == "PWAD"@,
{
    lemma_magic_is_text();
    lemma_ascii_decodes_bytewise(iwad_magic());
    lemma_ascii_decodes_bytewise(pwad_magic());
    decode_utf8_encode_utf8(magic);
    decode_utf8_encode_utf8(iwad_magic());
    decode_utf8_encode_utf8(pwad_magic());
}

/// A header of full length whose magic is neither `IWAD` nor `PWAD` is
/// refused for its kind, never for its length.
pub proof fn lemma_unknown_magic_is_refused(data: Seq<u8>)
    requires
        data.len() >= 12,
        data.subrange(0, 4) != iwad_magic(),
        data.subrange(0, 4) != pwad_magic(),
    ensures
        header_spec(data) == Err::<WadHeader, WadErrorView>(
            WadErrorView::UnkownWadType(text_of(data.subrange(0, 4))),
        ),
{
}

/// A buffer too short for a header is truncated: 12 bytes were asked for, and
/// the error says how many there were.
pub proof fn lemma_short_header_is_truncated(data: Seq<u8>)
    requires
        data.len() < 12,
    ensures
        header_spec(data) == Err::<WadHeader, WadErrorView>(truncated(12, data.len())),
{
}

/// Two decodings of one buffer agree: the record, or the error, is a function
/// of the bytes.
pub proof fn lemma_header_is_deterministic(
    data: Seq<u8>,
    first: Result<WadHeader, WadError>,
    second: Result<WadHeader, WadError>,
)
    requires
        outcome(first) == header_spec(data),
        outcome(second) == header_spec(data),
    ensures
        outcome(first) == outcome(second),
{
}

} // verus!
