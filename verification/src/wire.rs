//! Integer fields as the target machine lays them out in memory.
//!
//! The structures exchanged with the socket layer are plain C structs, so
//! their fields are in the byte order of the machine and their length field
//! is as wide as a pointer. Neither is known to this crate at compile time:
//! both are parameters, collected in [`Abi`].

use vstd::prelude::*;

verus! {

/// The order of the bytes of an integer in memory.
#[derive(Clone, Copy, Debug, PartialEq, Eq, Structural)]
pub enum ByteOrder {
    /// Least significant byte first.
    Little,
    /// Most significant byte first.
    Big,
}

/// The width of a pointer, and so of `size_t`.
#[derive(Clone, Copy, Debug, PartialEq, Eq, Structural)]
pub enum PointerWidth {
    /// Four bytes.
    Bits32,
    /// Eight bytes.
    Bits64,
}

/// What the layout of a control message depends on.
#[derive(Clone, Copy, Debug, PartialEq, Eq, Structural)]
pub struct Abi {
    pub byte_order: ByteOrder,
    pub pointer_width: PointerWidth,
}

/// The four bytes of `value`, least significant first.
pub open spec fn le_bytes(value: u32) -> Seq<u8> {
    seq![
        (value % 256) as u8,
        (value / 256 % 256) as u8,
        (value / 65536 % 256) as u8,
        (value / 16777216) as u8,
    ]
}

/// The number whose bytes, least significant first, are the first four of
/// `bytes`.
pub open spec fn le_value(bytes: Seq<u8>) -> int {
    bytes[0] + bytes[1] * 256 + bytes[2] * 65536 + bytes[3] * 16777216
}

/// The four bytes of a 32-bit field holding `value`.
pub open spec fn u32_bytes(order: ByteOrder, value: u32) -> Seq<u8> {
    match order {
        ByteOrder::Little => le_bytes(value),
        ByteOrder::Big => le_bytes(value).reverse(),
    }
}

/// The value of a 32-bit field whose four bytes are `bytes`.
pub open spec fn u32_value(order: ByteOrder, bytes: Seq<u8>) -> u32 {
    match order {
        ByteOrder::Little => le_value(bytes) as u32,
        ByteOrder::Big => le_value(bytes.reverse()) as u32,
    }
}

/// The bit pattern of a signed 32-bit integer, in two's complement.
pub open spec fn i32_bits(value: i32) -> u32 {
    if value >= 0 {
        value as u32
    } else {
        (value + 0x1_0000_0000) as u32
    }
}

/// The signed integer with the given bit pattern.
pub open spec fn bits_i32(bits: u32) -> i32 {
    if bits < 0x8000_0000 {
        bits as i32
    } else {
        (bits - 0x1_0000_0000) as i32
    }
}

impl Abi {
    /// The number of bytes of a pointer-wide field.
    pub open spec fn spec_word_len(self) -> nat {
        match self.pointer_width {
            PointerWidth::Bits32 => 4,
            PointerWidth::Bits64 => 8,
        }
    }

    /// The bytes of a pointer-wide field holding `value`.
    pub open spec fn word_bytes(self, value: u32) -> Seq<u8> {
        match self.pointer_width {
            PointerWidth::Bits32 => u32_bytes(self.byte_order, value),
            PointerWidth::Bits64 => match self.byte_order {
                ByteOrder::Little => u32_bytes(self.byte_order, value) + u32_bytes(
                    self.byte_order,
                    0,
                ),
                ByteOrder::Big => u32_bytes(self.byte_order, 0) + u32_bytes(
                    self.byte_order,
                    value,
                ),
            },
        }
    }

    /// The value of a pointer-wide field whose bytes are `bytes`.
    pub open spec fn word_value(self, bytes: Seq<u8>) -> u64 {
        match self.pointer_width {
            PointerWidth::Bits32 => u32_value(self.byte_order, bytes.subrange(0, 4)) as u64,
            PointerWidth::Bits64 => {
                let first = u32_value(self.byte_order, bytes.subrange(0, 4));
                let second = u32_value(self.byte_order, bytes.subrange(4, 8));
                match self.byte_order {
                    ByteOrder::Little => (first + second * 0x1_0000_0000) as u64,
                    ByteOrder::Big => (second + first * 0x1_0000_0000) as u64,
                }
            },
        }
    }

    /// The number of bytes of a pointer-wide field: 4 or 8.
    #[verifier::when_used_as_spec(spec_word_len_usize)]
    pub fn word_len(&self) -> (len: usize)
        ensures
            len == self.spec_word_len(),
    {
        match self.pointer_width {
            PointerWidth::Bits32 => 4,
            PointerWidth::Bits64 => 8,
        }
    }

    /// [`Abi::spec_word_len`] as a machine integer.
    pub open spec fn spec_word_len_usize(&self) -> usize {
        self.spec_word_len() as usize
    }

    /// Appends a pointer-wide field holding `value` to `out`.
    pub fn put_word(&self, out: &mut Vec<u8>, value: u32)
        ensures
            final(out)@ == old(out)@ + self.word_bytes(value),
    {
        match self.pointer_width {
            PointerWidth::Bits32 => {
                put_u32(out, self.byte_order, value);
            },
            PointerWidth::Bits64 => {
                match self.byte_order {
                    ByteOrder::Little => {
                        put_u32(out, self.byte_order, value);
                        put_u32(out, self.byte_order, 0);
                    },
                    ByteOrder::Big => {
                        put_u32(out, self.byte_order, 0);
                        put_u32(out, self.byte_order, value);
                    },
                }
                assert(out@ == old(out)@ + self.word_bytes(value));
            },
        }
    }

    /// Reads the pointer-wide field that starts at `at`, or nothing where
    /// `bytes` ends before the field does.
    pub fn get_word(&self, bytes: &[u8], at: usize) -> (value: Option<u64>)
        ensures
            value == if at + self.spec_word_len() <= bytes@.len() {
                Some(
                    self.word_value(
                        bytes@.subrange(at as int, at + self.spec_word_len() as int),
                    ),
                )
            } else {
                None
            },
    {
        let width = self.word_len();
        if bytes.len() < width || at > bytes.len() - width {
            return None;
        }
        let ghost field = bytes@.subrange(at as int, at + width as int);
        match self.pointer_width {
            PointerWidth::Bits32 => {
                let low = get_u32(bytes, at, self.byte_order);
                assert(field.subrange(0, 4) == bytes@.subrange(at as int, at + 4));
                match low {
                    Some(low) => Some(low as u64),
                    None => None,
                }
            },
            PointerWidth::Bits64 => {
                let first = get_u32(bytes, at, self.byte_order);
                let second = get_u32(bytes, at + 4, self.byte_order);
                assert(field.subrange(0, 4) == bytes@.subrange(at as int, at + 4));
                assert(field.subrange(4, 8) == bytes@.subrange(at + 4, at + 8));
                match (first, second) {
                    (Some(first), Some(second)) => {
                        match self.byte_order {
                            ByteOrder::Little => Some(
                                first as u64 + second as u64 * 0x1_0000_0000,
                            ),
                            ByteOrder::Big => Some(second as u64 + first as u64 * 0x1_0000_0000),
                        }
                    },
                    _ => None,
                }
            },
        }
    }
}

/// Appends a 32-bit field holding `value` to `out`.
pub fn put_u32(out: &mut Vec<u8>, order: ByteOrder, value: u32)
    ensures
        final(out)@ == old(out)@ + u32_bytes(order, value),
{
    let b0 = (value % 256) as u8;
    let b1 = (value / 256 % 256) as u8;
    let b2 = (value / 65536 % 256) as u8;
    let b3 = (value / 16777216) as u8;
    match order {
        ByteOrder::Little => {
            out.push(b0);
            out.push(b1);
            out.push(b2);
            out.push(b3);
        },
        ByteOrder::Big => {
            out.push(b3);
            out.push(b2);
            out.push(b1);
            out.push(b0);
        },
    }
    assert(out@ == old(out)@ + u32_bytes(order, value));
}

/// Appends a signed 32-bit field holding `value` to `out`.
pub fn put_i32(out: &mut Vec<u8>, order: ByteOrder, value: i32)
    ensures
        final(out)@ == old(out)@ + u32_bytes(order, i32_bits(value)),
{
    let bits: u32 = if value >= 0 {
        value as u32
    } else {
        (value as i64 + 0x1_0000_0000) as u32
    };
    put_u32(out, order, bits);
}

/// Reads the 32-bit field that starts at `at`, or nothing where `bytes` ends
/// before the field does.
pub fn get_u32(bytes: &[u8], at: usize, order: ByteOrder) -> (value: Option<u32>)
    ensures
        value == if at + 4 <= bytes@.len() {
            Some(u32_value(order, bytes@.subrange(at as int, at + 4)))
        } else {
            None
        },
{
    if bytes.len() < 4 || at > bytes.len() - 4 {
        return None;
    }
    let ghost field = bytes@.subrange(at as int, at + 4);
    let (b0, b1, b2, b3) = match order {
        ByteOrder::Little => (bytes[at], bytes[at + 1], bytes[at + 2], bytes[at + 3]),
        ByteOrder::Big => (bytes[at + 3], bytes[at + 2], bytes[at + 1], bytes[at]),
    };
    assert(field[0] == bytes@[at as int] && field[3] == bytes@[at + 3]);
    assert(field.reverse()[0] == field[3] && field.reverse()[1] == field[2]
        && field.reverse()[2] == field[1] && field.reverse()[3] == field[0]);
    Some(b0 as u32 + b1 as u32 * 256 + b2 as u32 * 65536 + b3 as u32 * 16777216)
}

/// Reads the signed 32-bit field that starts at `at`, or nothing where `bytes`
/// ends before the field does.
pub fn get_i32(bytes: &[u8], at: usize, order: ByteOrder) -> (value: Option<i32>)
    ensures
        value == if at + 4 <= bytes@.len() {
            Some(bits_i32(u32_value(order, bytes@.subrange(at as int, at + 4))))
        } else {
            None
        },
{
    match get_u32(bytes, at, order) {
        Some(bits) => Some(
            if bits < 0x8000_0000 {
                bits as i32
            } else {
                (bits as i64 - 0x1_0000_0000) as i32
            },
        ),
        None => None,
    }
}

/// A 32-bit field gives back the value that was written to it.
pub proof fn lemma_u32_round_trip(order: ByteOrder, value: u32)
    ensures
        u32_bytes(order, value).len() == 4,
        u32_value(order, u32_bytes(order, value)) == value,
{
    let bytes = le_bytes(value);
    assert(bytes.reverse().reverse() == bytes);
    assert(le_value(bytes) == value);
}

/// Four bytes are found again from the value of the 32-bit field they fill.
pub proof fn lemma_u32_bytes_of_value(order: ByteOrder, bytes: Seq<u8>)
    requires
        bytes.len() == 4,
    ensures
        u32_bytes(order, u32_value(order, bytes)) == bytes,
{
    let ordered = match order {
        ByteOrder::Little => bytes,
        ByteOrder::Big => bytes.reverse(),
    };
    let value = le_value(ordered);
    assert(0 <= value <= u32::MAX);
    assert(le_bytes(value as u32) == ordered);
    assert(bytes.reverse().reverse() == bytes);
}

/// Two's complement loses nothing: a signed value is found again from its
/// bit pattern.
pub proof fn lemma_i32_round_trip(value: i32)
    ensures
        bits_i32(i32_bits(value)) == value,
{
}

/// A pointer-wide field gives back the value that was written to it.
pub proof fn lemma_word_round_trip(abi: Abi, value: u32)
    ensures
        abi.word_bytes(value).len() == abi.spec_word_len(),
        abi.word_value(abi.word_bytes(value)) == value,
{
    let order = abi.byte_order;
    lemma_u32_round_trip(order, value);
    lemma_u32_round_trip(order, 0);
    let bytes = abi.word_bytes(value);
    match abi.pointer_width {
        PointerWidth::Bits32 => {
            assert(bytes.subrange(0, 4) == bytes);
        },
        PointerWidth::Bits64 => {
            match order {
                ByteOrder::Little => {
                    assert(bytes.subrange(0, 4) == u32_bytes(order, value));
                    assert(bytes.subrange(4, 8) == u32_bytes(order, 0));
                },
                ByteOrder::Big => {
                    assert(bytes.subrange(0, 4) == u32_bytes(order, 0));
                    assert(bytes.subrange(4, 8) == u32_bytes(order, value));
                },
            }
        },
    }
}

} // verus!
