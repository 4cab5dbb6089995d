//! Lump descriptors and the directory that holds them.
//!
//! A directory entry is 16 bytes: where the lump's payload starts, how long
//! it is (both signed 32-bit little-endian), and a name of up to 8 bytes,
//! padded with NUL.

use vstd::prelude::*;
use vstd::slice::slice_subrange;

use super::bytes::{i32_from_le, le_i32, remaining, tail, ByteView};
use super::error::{truncated, WadError, WadErrorView};
use super::text::{
    ascii_chars, decode_lossy, is_ascii_bytes, lemma_ascii_decodes_bytewise,
    lemma_trim_nul_of_padded, strip_trailing_nul, text_of, trim_nul,
};

verus! {

broadcast use vstd::slice::group_slice_axioms;

/// Size in bytes of one directory entry.
pub const LUMP_HEADER_SIZE: usize = 16;

/// Where a lump lies in the archive, and its name. The payload itself stays
/// in the buffer that the descriptor was read from.
#[derive(Debug, Clone, PartialEq, Eq)]
pub struct LumpHeader {
    /// Offset of the payload, in bytes from the start of the archive.
    pub offset: i32,
    /// Length of the payload in bytes.
    pub size: i32,
    /// The name, without its NUL padding.
    pub name: String,
}

/// A lump descriptor with its name as a sequence of characters.
pub struct LumpHeaderView {
    pub offset: i32,
    pub size: i32,
    pub name: Seq<char>,
}

impl View for LumpHeader {
    type V = LumpHeaderView;

    open spec fn view(&self) -> LumpHeaderView {
        LumpHeaderView { offset: self.offset, size: self.size, name: self.name@ }
    }
}

/// The kinds of lump whose payload this crate tells apart.
#[derive(Debug, Clone, Copy, PartialEq, Eq)]
pub enum LumpType {
    THINGS,
}

/// The bytes of the name in a directory entry, without the NUL padding.
pub open spec fn name_bytes(entry: Seq<u8>) -> Seq<u8> {
    trim_nul(entry.subrange(8, 16))
}

/// The descriptor that the first 16 bytes of `entry` hold.
pub open spec fn lump_fields(entry: Seq<u8>) -> LumpHeaderView
    recommends
        entry.len() >= 16,
{
    LumpHeaderView {
        offset: le_i32(entry.subrange(0, 4)) as i32,
        size: le_i32(entry.subrange(4, 8)) as i32,
        name: text_of(name_bytes(entry)),
    }
}

/// What decoding a directory entry from `data` yields.
pub open spec fn lump_spec(data: Seq<u8>) -> Result<LumpHeaderView, WadErrorView> {
    if data.len() < 16 {
        Err(truncated(16, data.len()))
    } else {
        Ok(lump_fields(data))
    }
}

/// What a lump decoder returned, taken by its views.
pub open spec fn lump_outcome(out: Result<LumpHeader, WadError>) -> Result<
    LumpHeaderView,
    WadErrorView,
> {
    match out {
        Ok(lump) => Ok(lump@),
        Err(e) => Err(e@),
    }
}

/// Decodes the fields of an entry that is known to be whole.
fn decode_fields(entry: &[u8]) -> (lump: LumpHeader)
    requires
        entry@.len() >= 16,
    ensures
        lump@ == lump_fields(entry@),
{
    let offset = i32_from_le(slice_subrange(entry, 0, 4));
    let size = i32_from_le(slice_subrange(entry, 4, 8));
    let name = decode_lossy(strip_trailing_nul(slice_subrange(entry, 8, 16)));
    LumpHeader { offset, size, name }
}

impl LumpHeader {
    /// Decodes the directory entry at the start of `data`.
    ///
    /// The name is the text of the name field up to its NUL padding: in an
    /// archive that keeps to ASCII names, one character for each byte.
    pub fn try_from(data: &[u8]) -> (out: Result<LumpHeader, WadError>)
        ensures
            lump_outcome(out) == lump_spec(data@),
    {
        let entry = match ByteView::new(data).take(0, LUMP_HEADER_SIZE) {
            Ok(entry) => entry,
            Err(e) => { return Err(e); },
        };
        proof {
            assert(entry@.subrange(0, 4) =~= data@.subrange(0, 4));
            assert(entry@.subrange(4, 8) =~= data@.subrange(4, 8));
            assert(entry@.subrange(8, 16) =~= data@.subrange(8, 16));
        }
        Ok(decode_fields(entry))
    }
}

/// Where the directory starts in a buffer of `len` bytes: at `offset` where
/// that lies inside the buffer or at its end, else at the end, where nothing
/// is left to read.
pub open spec fn directory_start(len: nat, offset: int) -> nat {
    if 0 <= offset <= len {
        offset as nat
    } else {
        len
    }
}

/// The number of whole entries between `start` and the end of a buffer of
/// `len` bytes.
pub open spec fn entry_count(len: nat, start: nat) -> nat {
    remaining(len, start) / 16
}

/// The descriptors of the whole entries that `source` holds from `start` on,
/// one for each stride of 16 bytes.
pub open spec fn entries(source: Seq<u8>, start: nat) -> Seq<LumpHeaderView> {
    Seq::new(
        entry_count(source.len(), start),
        |i: int| lump_fields(tail(source, (start + 16 * i) as nat)),
    )
}

/// The directory of an archive `source` whose header gives `offset`. An
/// offset that is negative or lies past the end of the buffer gives an empty
/// directory; a last stride of fewer than 16 bytes is left out.
pub open spec fn directory_spec(source: Seq<u8>, offset: int) -> Seq<LumpHeaderView> {
    entries(source, directory_start(source.len(), offset))
}

/// The directory of an archive: its lump descriptors, decoded one at a time as
/// they are asked for. Nothing is decoded when the directory is made, and any
/// entry can be asked for again.
#[derive(Debug, Clone, Copy)]
pub struct LumpDirectory<'a> {
    source: &'a [u8],
    start: usize,
}

impl<'a> View for LumpDirectory<'a> {
    type V = Seq<LumpHeaderView>;

    open spec fn view(&self) -> Seq<LumpHeaderView> {
        entries(self.source(), self.start())
    }
}

impl<'a> LumpDirectory<'a> {
    #[verifier::type_invariant]
    spec fn starts_inside(&self) -> bool {
        self.start <= self.source@.len()
    }

    /// The bytes of the archive.
    pub closed spec fn source(&self) -> Seq<u8> {
        self.source@
    }

    /// Where the first entry starts.
    pub closed spec fn start(&self) -> nat {
        self.start as nat
    }

    /// The directory of the archive `source`, which starts at
    /// `directory_offset`.
    pub fn new(source: &'a [u8], directory_offset: i32) -> (directory: LumpDirectory<'a>)
        ensures
            directory.source() == source@,
            directory.start() == directory_start(source@.len(), directory_offset as int),
            directory@ == directory_spec(source@, directory_offset as int),
    {
        let len: usize = source.len();
        let start: usize = if directory_offset < 0 {
            len
        } else if directory_offset as u64 <= len as u64 {
            directory_offset as usize
        } else {
            len
        };
        LumpDirectory { source, start }
    }

    /// The number of entries.
    pub fn len(&self) -> (n: usize)
        ensures
            n == self@.len(),
    {
        proof {
            use_type_invariant(self);
        }
        (self.source.len() - self.start) / LUMP_HEADER_SIZE
    }

    /// The entry at `index`, decoded from the stride of 16 bytes that starts
    /// `16 * index` bytes into the directory. An index at or past
    /// [`len`](Self::len) finds fewer than 16 bytes there and is refused.
    pub fn get(&self, index: usize) -> (out: Result<LumpHeader, WadError>)
        ensures
            lump_outcome(out) == lump_spec(
                tail(self.source(), (self.start() + 16 * index) as nat),
            ),
            index < self@.len() ==> lump_outcome(out) == Ok::<LumpHeaderView, WadErrorView>(
                self@[index as int],
            ),
            index >= self@.len() ==> out is Err,
    {
        proof {
            use_type_invariant(self);
        }
        let len: usize = self.source.len();
        let position: usize = if index <= (len - self.start) / LUMP_HEADER_SIZE {
            self.start + LUMP_HEADER_SIZE * index
        } else {
            len
        };
        proof {
            let wanted = (self.start() + 16 * index) as nat;
            if wanted > len {
                assert(tail(self.source(), wanted) =~= self.source@.subrange(
                    len as int,
                    len as int,
                ));
            }
        }
        LumpHeader::try_from(slice_subrange(self.source, position, len))
    }

    /// All entries, in the order of the directory.
    pub fn to_vec(&self) -> (lumps: Vec<LumpHeader>)
        ensures
            lumps@.len() == self@.len(),
            forall|i: int| 0 <= i < lumps@.len() ==> (#[trigger] lumps@[i])@ == self@[i],
    {
        proof {
            use_type_invariant(self);
        }
        let len: usize = self.source.len();
        let count: usize = (len - self.start) / LUMP_HEADER_SIZE;
        let mut lumps: Vec<LumpHeader> = Vec::new();
        let mut index: usize = 0;
        while index < count
            invariant
                len == self.source@.len(),
                self.start <= len,
                count == (len - self.start) / 16,
                count == self@.len(),
                index <= count,
                lumps@.len() == index,
                forall|i: int| 0 <= i < index ==> (#[trigger] lumps@[i])@ == self@[i],
            decreases count - index,
        {
            let position: usize = self.start + LUMP_HEADER_SIZE * index;
            let lump = decode_fields(slice_subrange(self.source, position, len));
            lumps.push(lump);
            index = index + 1;
        }
        lumps
    }
}

/// A buffer too short for a directory entry is truncated: 16 bytes were asked
/// for, and the error says how many there were.
pub proof fn lemma_short_lump_is_truncated(data: Seq<u8>)
    requires
        data.len() < 16,
    ensures
        lump_spec(data) == Err::<LumpHeaderView, WadErrorView>(truncated(16, data.len())),
{
}

/// Two decodings of one entry agree: the descriptor, or the error, is a
/// function of the bytes.
pub proof fn lemma_lump_is_deterministic(
    data: Seq<u8>,
    first: Result<LumpHeader, WadError>,
    second: Result<LumpHeader, WadError>,
)
    requires
        lump_outcome(first) == lump_spec(data),
        lump_outcome(second) == lump_spec(data),
    ensures
        lump_outcome(first) == lump_outcome(second),
{
}

/// An entry whose name field is the ASCII bytes `name` followed by NUL bytes
/// decodes to the characters of `name`: the padding is gone, and nothing
/// else.
pub proof fn lemma_name_of_padded_ascii(entry: Seq<u8>, name: Seq<u8>)
    requires
        entry.len() >= 16,
        name.len() <= 8,
        name.len() == 0 || name.last() != 0,
        is_ascii_bytes(name),
        entry.subrange(8, 16) == name + Seq::new((8 - name.len()) as nat, |i: int| 0u8),
    ensures
        name_bytes(entry) == name,
        lump_spec(entry) is Ok,
        lump_spec(entry)->Ok_0.name == ascii_chars(name),
{
    lemma_trim_nul_of_padded(name, (8 - name.len()) as nat);
    lemma_ascii_decodes_bytewise(name);
}

/// In a buffer of `L` bytes, a directory at offset `D` has `(L - D) / 16`
/// entries, rounded down, where `0 <= D <= L`, and none where `D` is negative
/// or greater than `L`.
pub proof fn lemma_directory_len(source: Seq<u8>, offset: int)
    ensures
        0 <= offset <= source.len() ==> directory_spec(source, offset).len() == (source.len()
            - offset) / 16,
        offset < 0 || offset > source.len() ==> directory_spec(source, offset).len() == 0,
{
}

/// A directory region of `strides` whole entries and `extra < 16` further
/// bytes has `strides` entries. Each of them decodes without error; the bytes
/// left over are no entry, and decoding them where they stand is truncated.
pub proof fn lemma_partial_stride_is_dropped(
    source: Seq<u8>,
    offset: int,
    strides: nat,
    extra: nat,
)
    requires
        0 <= offset,
        extra < 16,
        source.len() == offset + 16 * strides + extra,
    ensures
        directory_spec(source, offset).len() == strides,
        forall|i: int|
            0 <= i < strides ==> lump_spec(#[trigger] tail(source, (offset + 16 * i) as nat))
                == Ok::<LumpHeaderView, WadErrorView>(directory_spec(source, offset)[i]),
        lump_spec(tail(source, (offset + 16 * strides) as nat)) == Err::<
            LumpHeaderView,
            WadErrorView,
        >(truncated(16, extra)),
{
    assert((16 * strides + extra) / 16 == strides);
}

} // verus!
