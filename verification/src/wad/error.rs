//! The ways in which decoding an archive can fail.

use vstd::prelude::*;

verus! {

/// An I/O failure is carried through the library untouched; nothing here looks
/// inside it.
#[verifier::external_type_specification]
#[verifier::external_body]
pub struct ExIoError(std::io::Error);

/// Why an archive, or one record of it, could not be decoded.
#[derive(Debug)]
pub enum WadError {
    /// The source of the archive could not be read. No decoder produces this:
    /// it is raised where the bytes are obtained.
    UnreadableFile(std::io::Error),
    /// A fixed-width read asked for `requested` bytes where only `available`
    /// were left in the buffer.
    SliceWithIncorrectLenght { requested: usize, available: usize },
    /// The four magic bytes name no known archive kind. Carries the magic as
    /// text, invalid UTF-8 replaced by U+FFFD.
    UnkownWadType(String),
}

/// What an error says, with text as a sequence of characters.
pub enum WadErrorView {
    UnreadableFile,
    SliceWithIncorrectLenght { requested: nat, available: nat },
    UnkownWadType(Seq<char>),
}

impl View for WadError {
    type V = WadErrorView;

    open spec fn view(&self) -> WadErrorView {
        match *self {
            WadError::UnreadableFile(_) => WadErrorView::UnreadableFile,
            WadError::SliceWithIncorrectLenght { requested, available } => {
                WadErrorView::SliceWithIncorrectLenght {
                    requested: requested as nat,
                    available: available as nat,
                }
            },
            WadError::UnkownWadType(text) => WadErrorView::UnkownWadType(text@),
        }
    }
}

/// The error of a read of `requested` bytes that found `available`.
pub open spec fn truncated(requested: nat, available: nat) -> WadErrorView {
    WadErrorView::SliceWithIncorrectLenght { requested, available }
}

/// What a decoder returned, its error taken by its view.
pub open spec fn outcome<T>(out: Result<T, WadError>) -> Result<T, WadErrorView> {
    match out {
        Ok(record) => Ok(record),
        Err(e) => Err(e@),
    }
}

} // verus!
