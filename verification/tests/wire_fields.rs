use multicast_socket::wire::{get_i32, get_u32, put_i32, put_u32, Abi, ByteOrder, PointerWidth};

#[test]
fn u32_field_little_endian_layout() {
    let mut out = Vec::new();
    put_u32(&mut out, ByteOrder::Little, 0x0102_0304);
    assert_eq!(out, vec![4, 3, 2, 1]);
    assert_eq!(get_u32(&out, 0, ByteOrder::Little), Some(0x0102_0304));
}

#[test]
fn u32_field_big_endian_layout() {
    let mut out = Vec::new();
    put_u32(&mut out, ByteOrder::Big, 0x0102_0304);
    assert_eq!(out, vec![1, 2, 3, 4]);
    assert_eq!(get_u32(&out, 0, ByteOrder::Big), Some(0x0102_0304));
}

#[test]
fn u32_field_matches_std_byte_orders() {
    for value in [0u32, 1, 255, 256, 65_535, 65_536, 0x7fff_ffff, 0x8000_0000, u32::MAX] {
        let mut little = Vec::new();
        put_u32(&mut little, ByteOrder::Little, value);
        assert_eq!(little, value.to_le_bytes().to_vec());
        let mut big = Vec::new();
        put_u32(&mut big, ByteOrder::Big, value);
        assert_eq!(big, value.to_be_bytes().to_vec());
    }
}

#[test]
fn i32_field_is_twos_complement() {
    for value in [0i32, 1, -1, 19, i32::MAX, i32::MIN, -2] {
        let mut little = Vec::new();
        put_i32(&mut little, ByteOrder::Little, value);
        assert_eq!(little, value.to_le_bytes().to_vec());
        assert_eq!(get_i32(&little, 0, ByteOrder::Little), Some(value));
        let mut big = Vec::new();
        put_i32(&mut big, ByteOrder::Big, value);
        assert_eq!(big, value.to_be_bytes().to_vec());
        assert_eq!(get_i32(&big, 0, ByteOrder::Big), Some(value));
    }
}

#[test]
fn field_read_is_bounds_checked() {
    let bytes = [1u8, 2, 3, 4, 5];
    assert_eq!(get_u32(&bytes, 1, ByteOrder::Little), Some(0x0504_0302));
    assert_eq!(get_u32(&bytes, 2, ByteOrder::Little), None);
    assert_eq!(get_u32(&bytes, usize::MAX, ByteOrder::Little), None);
    assert_eq!(get_u32(&bytes[..3], 0, ByteOrder::Big), None);
}

#[test]
fn word_field_width_follows_the_pointer() {
    let narrow = Abi { byte_order: ByteOrder::Little, pointer_width: PointerWidth::Bits32 };
    let wide = Abi { byte_order: ByteOrder::Little, pointer_width: PointerWidth::Bits64 };
    let wide_big = Abi { byte_order: ByteOrder::Big, pointer_width: PointerWidth::Bits64 };
    assert_eq!(narrow.word_len(), 4);
    assert_eq!(wide.word_len(), 8);
    let mut out = Vec::new();
    narrow.put_word(&mut out, 24);
    assert_eq!(out, vec![24, 0, 0, 0]);
    let mut out = Vec::new();
    wide.put_word(&mut out, 24);
    assert_eq!(out, 24u64.to_le_bytes().to_vec());
    assert_eq!(wide.get_word(&out, 0), Some(24));
    let mut out = Vec::new();
    wide_big.put_word(&mut out, 28);
    assert_eq!(out, 28u64.to_be_bytes().to_vec());
    assert_eq!(wide_big.get_word(&out, 0), Some(28));
    assert_eq!(wide_big.get_word(&out, 1), None);
    let full = [0xffu8; 8];
    assert_eq!(wide.get_word(&full, 0), Some(u64::MAX));
    assert_eq!(narrow.get_word(&full, 4), Some(u32::MAX as u64));
}
