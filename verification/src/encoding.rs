//! Facts about UTF-8: bytes of ASCII stand on their own, so that one of them
//! can give way to others without harm to the text around it.
use vstd::prelude::*;
use vstd::utf8::{
    is_char_boundary, is_char_boundary_iff_not_is_continuation_byte, valid_utf8,
    valid_utf8_concat, valid_utf8_split,
};

verus! {

/// Whether every byte of `bytes` is a character of ASCII.
pub open spec fn all_ascii(bytes: Seq<u8>) -> bool {
    forall|i: int| 0 <= i < bytes.len() ==> #[trigger] bytes[i] <= 0x7f
}

/// Bytes of ASCII are valid UTF-8.
pub proof fn lemma_ascii_is_valid(bytes: Seq<u8>)
    requires
        all_ascii(bytes),
    ensures
        valid_utf8(bytes),
    decreases bytes.len(),
{
    if bytes.len() > 0 {
        assert(bytes[0] <= 0x7f);
        let rest = bytes.subrange(1, bytes.len() as int);
        assert forall|i: int| 0 <= i < rest.len() implies #[trigger] rest[i] <= 0x7f by {
            assert(rest[i] == bytes[i + 1]);
        }
        lemma_ascii_is_valid(rest);
        lemma_first_ascii(bytes);
    }
}

/// A byte of ASCII at the start of a text is a character by itself.
pub proof fn lemma_first_ascii(bytes: Seq<u8>)
    requires
        bytes.len() > 0,
        bytes[0] <= 0x7f,
    ensures
        vstd::utf8::valid_first_scalar(bytes),
        vstd::utf8::pop_first_scalar(bytes) == bytes.subrange(1, bytes.len() as int),
{
    let byte = bytes[0];
    assert(byte & 0x7F <= 0x7f) by (bit_vector);
}

/// A byte of ASCII in a valid text starts a character.
pub proof fn lemma_ascii_is_boundary(bytes: Seq<u8>, at: int)
    requires
        valid_utf8(bytes),
        0 <= at < bytes.len(),
        bytes[at] <= 0x7f,
    ensures
        is_char_boundary(bytes, at),
{
    is_char_boundary_iff_not_is_continuation_byte(bytes, at);
}

/// Where a byte of ASCII in a valid text gives way to bytes of ASCII, the
/// text stays valid.
pub proof fn lemma_splice_keeps_valid(bytes: Seq<u8>, at: int, put: Seq<u8>)
    requires
        valid_utf8(bytes),
        0 <= at < bytes.len(),
        bytes[at] <= 0x7f,
        all_ascii(put),
    ensures
        valid_utf8(bytes.subrange(0, at) + put + bytes.subrange(at + 1, bytes.len() as int)),
{
    lemma_ascii_is_boundary(bytes, at);
    valid_utf8_split(bytes, at);
    let left = bytes.subrange(0, at);
    let right = bytes.subrange(at, bytes.len() as int);
    lemma_first_ascii(right);
    let rest = bytes.subrange(at + 1, bytes.len() as int);
    assert(right.subrange(1, right.len() as int) =~= rest);
    assert(valid_utf8(rest));
    lemma_ascii_is_valid(put);
    valid_utf8_concat(left, put);
    valid_utf8_concat(left + put, rest);
}

} // verus!
