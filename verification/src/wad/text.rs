//! Text fields: NUL padding, and bytes turned into a `String`.

use vstd::prelude::*;
use vstd::slice::slice_subrange;
use vstd::utf8::{
    decode_utf8, encode_utf8, encode_utf8_decode_utf8, encode_utf8_valid_utf8,
    is_ascii_chars, is_ascii_chars_encode_utf8, valid_utf8,
};

verus! {

broadcast use vstd::slice::group_slice_axioms;

/// The text that `String::from_utf8_lossy` makes of bytes that are not valid
/// UTF-8: the characters of the valid stretches, with U+FFFD in place of the
/// rest.
pub uninterp spec fn lossy_text(bytes: Seq<u8>) -> Seq<char>;

/// The text of `bytes`: the characters that they encode where they are valid
/// UTF-8, and what lossy decoding makes of them where they are not.
pub open spec fn text_of(bytes: Seq<u8>) -> Seq<char> {
    if valid_utf8(bytes) {
        decode_utf8(bytes)
    } else {
        lossy_text(bytes)
    }
}

/// Calls `String::from_utf8_lossy` and takes ownership of what it returns.
///
/// Believed of it: bytes that are valid UTF-8 come out as the characters they
/// encode, nothing replaced; of other bytes the text is a function of the
/// bytes alone, named [`lossy_text`]. Together: the text is [`text_of`] the
/// bytes.
#[verifier::external_body]
pub(crate) fn decode_lossy(bytes: &[u8]) -> (text: String)
    ensures
        valid_utf8(bytes@) ==> text@ == decode_utf8(bytes@),
        !valid_utf8(bytes@) ==> text@ == lossy_text(bytes@),
{
    String::from_utf8_lossy(bytes).into_owned()
}

/// Every byte is below 0x80.
pub open spec fn is_ascii_bytes(bytes: Seq<u8>) -> bool {
    forall|i: int| 0 <= i < bytes.len() ==> #[trigger] bytes[i] < 0x80
}

/// Each byte as the character with that code.
pub open spec fn ascii_chars(bytes: Seq<u8>) -> Seq<char> {
    Seq::new(bytes.len(), |i: int| bytes[i] as char)
}

/// ASCII bytes are valid UTF-8, and their text has one character for each
/// byte.
pub proof fn lemma_ascii_decodes_bytewise(bytes: Seq<u8>)
    requires
        is_ascii_bytes(bytes),
    ensures
        valid_utf8(bytes),
        decode_utf8(bytes) == ascii_chars(bytes),
        text_of(bytes) == ascii_chars(bytes),
{
    let chars = ascii_chars(bytes);
    assert(is_ascii_chars(chars));
    is_ascii_chars_encode_utf8(chars);
    assert(encode_utf8(chars) =~= bytes);
    encode_utf8_valid_utf8(chars);
    encode_utf8_decode_utf8(chars);
}

/// The length of `field` without the NUL bytes at its end.
pub open spec fn trimmed_len(field: Seq<u8>) -> nat
    decreases field.len(),
{
    if field.len() == 0 || field.last() != 0 {
        field.len()
    } else {
        trimmed_len(field.drop_last())
    }
}

/// `field` without the NUL bytes at its end. NUL bytes elsewhere stay.
pub open spec fn trim_nul(field: Seq<u8>) -> Seq<u8> {
    field.subrange(0, trimmed_len(field) as int)
}

/// What [`trim_nul`] keeps and what it drops: the result is a prefix that
/// does not end in NUL, and every byte after it is NUL.
pub proof fn lemma_trimmed_len(field: Seq<u8>)
    ensures
        trimmed_len(field) <= field.len(),
        trimmed_len(field) > 0 ==> field[trimmed_len(field) - 1] != 0,
        forall|i: int| trimmed_len(field) <= i < field.len() ==> field[i] == 0,
    decreases field.len(),
{
    if field.len() != 0 && field.last() == 0 {
        let rest = field.drop_last();
        lemma_trimmed_len(rest);
        assert forall|i: int| trimmed_len(field) <= i < field.len() implies field[i] == 0 by {
            if i < rest.len() {
                assert(rest[i] == field[i]);
            }
        }
    }
}

/// A prefix that does not end in NUL, followed by nothing but NUL, is what
/// trimming gives back.
pub proof fn lemma_trim_nul_of_padded(name: Seq<u8>, padding: nat)
    requires
        name.len() == 0 || name.last() != 0,
    ensures
        trimmed_len(name + Seq::new(padding, |i: int| 0u8)) == name.len(),
        trim_nul(name + Seq::new(padding, |i: int| 0u8)) == name,
    decreases padding,
{
    let field = name + Seq::new(padding, |i: int| 0u8);
    if padding == 0 {
        assert(field =~= name);
    } else {
        let shorter = name + Seq::new((padding - 1) as nat, |i: int| 0u8);
        assert(field.drop_last() =~= shorter);
        lemma_trim_nul_of_padded(name, (padding - 1) as nat);
    }
    assert(trim_nul(field) =~= name);
}

/// The bytes of `field` up to its NUL padding.
pub fn strip_trailing_nul(field: &[u8]) -> (out: &[u8])
    ensures
        out@ == trim_nul(field@),
{
    let mut end: usize = field.len();
    assert(field@.subrange(0, end as int) =~= field@);
    while end > 0 && field[end - 1] == 0
        invariant
            end <= field@.len(),
            trimmed_len(field@) == trimmed_len(field@.subrange(0, end as int)),
        decreases end,
    {
        assert(field@.subrange(0, end as int).drop_last() =~= field@.subrange(0, end - 1));
        end = end - 1;
    }
    slice_subrange(field, 0, end)
}

} // verus!
