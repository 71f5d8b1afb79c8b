//! The header that precedes every ancillary record.
//!
//! Both socket layers use the same three fields: the length of the record,
//! header included, in a pointer-wide field; then the protocol level and the
//! type of the record, 32 bits each. What follows the header differs.

use crate::wire::{bits_i32, get_i32, i32_bits, put_i32, u32_bytes, u32_value, Abi};
use crate::wire::{lemma_i32_round_trip, lemma_u32_round_trip, lemma_word_round_trip};
use vstd::prelude::*;

verus! {

/// The header of one ancillary record.
#[derive(Clone, Copy, Debug, PartialEq, Eq, Structural)]
pub struct ControlHeader {
    /// The length of the record in bytes, this header included.
    pub len: u64,
    /// The protocol that the record belongs to.
    pub level: i32,
    /// The kind of record within that protocol.
    pub kind: i32,
}

/// The number of bytes of a header: the length field and two 32-bit fields.
pub open spec fn spec_header_len(abi: Abi) -> nat {
    abi.spec_word_len() + 8
}

/// The bytes of a header that announces a record of `len` bytes.
pub open spec fn header_bytes(abi: Abi, len: u32, level: i32, kind: i32) -> Seq<u8> {
    abi.word_bytes(len) + u32_bytes(abi.byte_order, i32_bits(level)) + u32_bytes(
        abi.byte_order,
        i32_bits(kind),
    )
}

/// The header that starts at offset `at` of `bytes`, or nothing where `bytes`
/// ends before the header does.
pub open spec fn header_at(abi: Abi, bytes: Seq<u8>, at: int) -> Option<ControlHeader> {
    let word = abi.spec_word_len() as int;
    if 0 <= at && at + spec_header_len(abi) <= bytes.len() {
        Some(
            ControlHeader {
                len: abi.word_value(bytes.subrange(at, at + word)),
                level: bits_i32(
                    u32_value(abi.byte_order, bytes.subrange(at + word, at + word + 4)),
                ),
                kind: bits_i32(
                    u32_value(abi.byte_order, bytes.subrange(at + word + 4, at + word + 8)),
                ),
            },
        )
    } else {
        None
    }
}

/// The number of bytes of a header: 12 with 32-bit pointers, 16 with 64-bit
/// ones.
#[verifier::when_used_as_spec(spec_header_len_usize)]
pub fn header_len(abi: Abi) -> (len: usize)
    ensures
        len == spec_header_len(abi),
{
    abi.word_len() + 8
}

/// [`spec_header_len`] as a machine integer.
pub open spec fn spec_header_len_usize(abi: Abi) -> usize {
    spec_header_len(abi) as usize
}

/// Appends the header of a record of `len` bytes to `out`.
pub fn put_header(out: &mut Vec<u8>, abi: Abi, len: u32, level: i32, kind: i32)
    ensures
        final(out)@ == old(out)@ + header_bytes(abi, len, level, kind),
{
    abi.put_word(out, len);
    put_i32(out, abi.byte_order, level);
    put_i32(out, abi.byte_order, kind);
    assert(out@ == old(out)@ + header_bytes(abi, len, level, kind));
}

/// Reads the header that starts at offset `at`, after checking that all of it
/// lies within `bytes`.
pub fn get_header(abi: Abi, bytes: &[u8], at: usize) -> (header: Option<ControlHeader>)
    ensures
        header == header_at(abi, bytes@, at as int),
{
    let word = abi.word_len();
    if bytes.len() < word + 8 || at > bytes.len() - (word + 8) {
        return None;
    }
    let len = abi.get_word(bytes, at);
    let level = get_i32(bytes, at + word, abi.byte_order);
    let kind = get_i32(bytes, at + word + 4, abi.byte_order);
    match (len, level, kind) {
        (Some(len), Some(level), Some(kind)) => Some(ControlHeader { len, level, kind }),
        _ => None,
    }
}

/// A header is read back as it was written, whatever follows it.
pub proof fn lemma_header_round_trip(
    abi: Abi,
    len: u32,
    level: i32,
    kind: i32,
    rest: Seq<u8>,
)
    ensures
        header_bytes(abi, len, level, kind).len() == spec_header_len(abi),
        header_at(abi, header_bytes(abi, len, level, kind) + rest, 0) == Some(
            ControlHeader { len: len as u64, level, kind },
        ),
{
    let order = abi.byte_order;
    let word = abi.spec_word_len() as int;
    lemma_word_round_trip(abi, len);
    lemma_u32_round_trip(order, i32_bits(level));
    lemma_u32_round_trip(order, i32_bits(kind));
    lemma_i32_round_trip(level);
    lemma_i32_round_trip(kind);
    let bytes = header_bytes(abi, len, level, kind) + rest;
    assert(bytes.subrange(0, word) == abi.word_bytes(len));
    assert(bytes.subrange(word, word + 4) == u32_bytes(order, i32_bits(level)));
    assert(bytes.subrange(word + 4, word + 8) == u32_bytes(order, i32_bits(kind)));
}

} // verus!
