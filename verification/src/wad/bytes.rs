//! Checked fixed-width reads from a byte buffer, and the little-endian
//! integers that the archive layout is made of.

use vstd::prelude::*;
use vstd::slice::slice_subrange;

use super::error::{outcome, truncated, WadError, WadErrorView};

verus! {

broadcast use vstd::slice::group_slice_axioms;

/// The unsigned value of two bytes, least significant first.
pub open spec fn le_u16(b: Seq<u8>) -> int
    recommends
        b.len() == 2,
{
    b[0] as int + 256 * (b[1] as int)
}

/// The two's-complement value of two bytes, least significant first.
pub open spec fn le_i16(b: Seq<u8>) -> int
    recommends
        b.len() == 2,
{
    if le_u16(b) < 0x8000 {
        le_u16(b)
    } else {
        le_u16(b) - 0x1_0000
    }
}

/// The unsigned value of four bytes, least significant first.
pub open spec fn le_u32(b: Seq<u8>) -> int
    recommends
        b.len() == 4,
{
    b[0] as int + 256 * (b[1] as int) + 65536 * (b[2] as int) + 16777216 * (b[3] as int)
}

/// The two's-complement value of four bytes, least significant first.
pub open spec fn le_i32(b: Seq<u8>) -> int
    recommends
        b.len() == 4,
{
    if le_u32(b) < 0x8000_0000 {
        le_u32(b)
    } else {
        le_u32(b) - 0x1_0000_0000
    }
}

/// How many bytes of a buffer of `len` bytes lie at or after `start`.
pub open spec fn remaining(len: nat, start: nat) -> nat {
    if start <= len {
        (len - start) as nat
    } else {
        0
    }
}

/// The part of `data` from `position` on; nothing if `position` lies past the
/// end.
pub open spec fn tail(data: Seq<u8>, position: nat) -> Seq<u8> {
    if position <= data.len() {
        data.subrange(position as int, data.len() as int)
    } else {
        Seq::empty()
    }
}

/// What a read of `width` bytes at `start` yields from `data`: the first
/// `width` bytes from `start` on, or, where fewer than `width` are left, the
/// error that tells how many were asked for and how many there were.
pub open spec fn take_spec(data: Seq<u8>, start: nat, width: nat) -> Result<Seq<u8>, WadErrorView> {
    if width <= remaining(data.len(), start) {
        Ok(tail(data, start).subrange(0, width as int))
    } else {
        Err(truncated(width, remaining(data.len(), start)))
    }
}

/// What a read through a [`ByteView`] returned, taken by its views.
pub open spec fn bytes_outcome(out: Result<&[u8], WadError>) -> Result<Seq<u8>, WadErrorView> {
    match out {
        Ok(bytes) => Ok(bytes@),
        Err(e) => Err(e@),
    }
}

/// The unsigned 16-bit integer at `start` in `data`.
pub open spec fn read_u16_spec(data: Seq<u8>, start: nat) -> Result<u16, WadErrorView> {
    match take_spec(data, start, 2) {
        Ok(bytes) => Ok(le_u16(bytes) as u16),
        Err(e) => Err(e),
    }
}

/// The signed 16-bit integer at `start` in `data`.
pub open spec fn read_i16_spec(data: Seq<u8>, start: nat) -> Result<i16, WadErrorView> {
    match take_spec(data, start, 2) {
        Ok(bytes) => Ok(le_i16(bytes) as i16),
        Err(e) => Err(e),
    }
}

/// The signed 32-bit integer at `start` in `data`.
pub open spec fn read_i32_spec(data: Seq<u8>, start: nat) -> Result<i32, WadErrorView> {
    match take_spec(data, start, 4) {
        Ok(bytes) => Ok(le_i32(bytes) as i32),
        Err(e) => Err(e),
    }
}

/// A read-only view of a byte buffer. Every fixed-width field of the archive
/// is read through it, so no decoder indexes past the end of its input.
#[derive(Clone, Copy, Debug)]
pub struct ByteView<'a> {
    data: &'a [u8],
}

impl<'a> View for ByteView<'a> {
    type V = Seq<u8>;

    closed spec fn view(&self) -> Seq<u8> {
        self.data@
    }
}

impl<'a> ByteView<'a> {
    /// A view of all of `data`.
    pub fn new(data: &'a [u8]) -> (view: ByteView<'a>)
        ensures
            view@ == data@,
    {
        ByteView { data }
    }

    /// The number of bytes in view.
    pub fn len(&self) -> (n: usize)
        ensures
            n == self@.len(),
    {
        self.data.len()
    }

    /// The `width` bytes that start at `start`, or an error if fewer than
    /// `width` bytes lie between `start` and the end of the buffer.
    pub fn take(&self, start: usize, width: usize) -> (out: Result<&'a [u8], WadError>)
        ensures
            bytes_outcome(out) == take_spec(self@, start as nat, width as nat),
    {
        let len: usize = self.data.len();
        let from: usize = if start <= len {
            start
        } else {
            len
        };
        if width <= len - from {
            let bytes = slice_subrange(self.data, from, from + width);
            assert(bytes@ =~= tail(self@, start as nat).subrange(0, width as int));
            Ok(bytes)
        } else {
            Err(WadError::SliceWithIncorrectLenght { requested: width, available: len - from })
        }
    }

    /// The unsigned 16-bit little-endian integer at `start`.
    pub fn read_u16(&self, start: usize) -> (out: Result<u16, WadError>)
        ensures
            outcome(out) == read_u16_spec(self@, start as nat),
    {
        match self.take(start, 2) {
            Ok(bytes) => Ok(u16_from_le(bytes)),
            Err(e) => Err(e),
        }
    }

    /// The signed 16-bit little-endian integer at `start`.
    pub fn read_i16(&self, start: usize) -> (out: Result<i16, WadError>)
        ensures
            outcome(out) == read_i16_spec(self@, start as nat),
    {
        match self.take(start, 2) {
            Ok(bytes) => Ok(i16_from_le(bytes)),
            Err(e) => Err(e),
        }
    }

    /// The signed 32-bit little-endian integer at `start`.
    pub fn read_i32(&self, start: usize) -> (out: Result<i32, WadError>)
        ensures
            outcome(out) == read_i32_spec(self@, start as nat),
    {
        match self.take(start, 4) {
            Ok(bytes) => Ok(i32_from_le(bytes)),
            Err(e) => Err(e),
        }
    }
}

/// Decodes two bytes as an unsigned little-endian integer.
pub fn u16_from_le(b: &[u8]) -> (v: u16)
    requires
        b@.len() == 2,
    ensures
        v == le_u16(b@),
{
    let lo: u16 = b[0] as u16;
    let hi: u16 = b[1] as u16;
    lo + 256 * hi
}

/// Decodes two bytes as a signed little-endian integer.
pub fn i16_from_le(b: &[u8]) -> (v: i16)
    requires
        b@.len() == 2,
    ensures
        v == le_i16(b@),
{
    let raw: i32 = b[0] as i32 + 256 * (b[1] as i32);
    if raw < 0x8000 {
        raw as i16
    } else {
        (raw - 0x1_0000) as i16
    }
}

/// Decodes four bytes as a signed little-endian integer.
pub fn i32_from_le(b: &[u8]) -> (v: i32)
    requires
        b@.len() == 4,
    ensures
        v == le_i32(b@),
{
    let raw: i64 = b[0] as i64 + 256 * (b[1] as i64) + 65536 * (b[2] as i64) + 16777216 * (b[3]
        as i64);
    if raw < 0x8000_0000 {
        raw as i32
    } else {
        (raw - 0x1_0000_0000) as i32
    }
}

/// A read of more bytes than are left is refused, and the error tells the
/// width asked for and the smaller number of bytes that there were.
pub proof fn lemma_take_past_end_is_truncated(data: Seq<u8>, start: nat, width: nat)
    requires
        remaining(data.len(), start) < width,
    ensures
        take_spec(data, start, width) == Err::<Seq<u8>, WadErrorView>(
            truncated(width, remaining(data.len(), start)),
        ),
{
}

/// A read that lies inside the buffer yields the bytes of its range.
pub proof fn lemma_take_inside_is_subrange(data: Seq<u8>, start: nat, width: nat)
    requires
        start + width <= data.len(),
    ensures
        take_spec(data, start, width) == Ok::<Seq<u8>, WadErrorView>(
            data.subrange(start as int, (start + width) as int),
        ),
{
    assert(tail(data, start).subrange(0, width as int) =~= data.subrange(
        start as int,
        (start + width) as int,
    ));
}

} // verus!
