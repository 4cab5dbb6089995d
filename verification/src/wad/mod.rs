//! The archive layout: a 12-byte header, a directory of 16-byte lump
//! descriptors, and the payload records that lumps may hold.

use vstd::prelude::*;

pub mod bytes;
pub mod error;
pub mod header;
pub mod lump;
pub mod patch;
pub mod text;
pub mod thing;

pub use self::error::WadError;

use self::error::WadErrorView;
use self::header::{header_spec, WadHeader};
use self::lump::{directory_spec, directory_start, LumpDirectory, LumpHeaderView};

verus! {

/// What an archive holds: its header, and the descriptors of its directory.
pub struct WadView {
    pub header: WadHeader,
    pub lumps: Seq<LumpHeaderView>,
}

/// What parsing `source` yields: the error of the header where that cannot be
/// decoded, else the header with the directory that starts where it says. The
/// number of lumps that the header declares plays no part: the directory is
/// as long as the buffer makes it.
pub open spec fn parse_spec(source: Seq<u8>) -> Result<WadView, WadErrorView> {
    match header_spec(source) {
        Err(e) => Err(e),
        Ok(header) => Ok(
            WadView { header, lumps: directory_spec(source, header.directory_offset as int) },
        ),
    }
}

/// What [`parse`] returned, taken by its views.
pub open spec fn parse_outcome(out: Result<(WadHeader, LumpDirectory<'_>), WadError>) -> Result<
    WadView,
    WadErrorView,
> {
    match out {
        Ok((header, directory)) => Ok(WadView { header, lumps: directory@ }),
        Err(e) => Err(e@),
    }
}

/// Decodes an archive held in memory: the header, and the directory, whose
/// entries are decoded as the caller asks for them.
///
/// The header's count of lumps is handed back as it was found. Where it
/// differs from the length of the directory, the caller sees both.
pub fn parse<'a>(source: &'a [u8]) -> (out: Result<(WadHeader, LumpDirectory<'a>), WadError>)
    ensures
        parse_outcome(out) == parse_spec(source@),
        out matches Ok((header, directory)) ==> {
            &&& directory.source() == source@
            &&& directory.start() == directory_start(
                source@.len(),
                header.directory_offset as int,
            )
        },
{
    match WadHeader::new(source) {
        Ok(header) => {
            let directory = LumpDirectory::new(source, header.directory_offset);
            Ok((header, directory))
        },
        Err(e) => Err(e),
    }
}

/// Two parses of one buffer agree: the header and every descriptor, or the
/// error, are a function of the bytes.
pub proof fn lemma_parse_is_deterministic(
    source: Seq<u8>,
    first: Result<(WadHeader, LumpDirectory<'_>), WadError>,
    second: Result<(WadHeader, LumpDirectory<'_>), WadError>,
)
    requires
        parse_outcome(first) == parse_spec(source),
        parse_outcome(second) == parse_spec(source),
    ensures
        parse_outcome(first) == parse_outcome(second),
{
}

} // verus!
