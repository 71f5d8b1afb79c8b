use multicast_socket::addr::Ipv4Address;
use multicast_socket::win::{control_pktinfo_buffer_size, decode_packet_info, encode_packet_info};
use multicast_socket::win::{index_as_address, to_s_addr, PacketInfo};
use multicast_socket::win::{IPPROTO_IP, IP_PKTINFO, PKTINFO_DATA_SIZE};
use multicast_socket::wire::{Abi, ByteOrder, PointerWidth};

fn win64() -> Abi {
    Abi { byte_order: ByteOrder::Little, pointer_width: PointerWidth::Bits64 }
}

fn win32() -> Abi {
    Abi { byte_order: ByteOrder::Little, pointer_width: PointerWidth::Bits32 }
}

fn info(address: [u8; 4], index: u32) -> PacketInfo {
    PacketInfo { address: Ipv4Address::from_octets(address), index }
}

#[test]
fn win_constants() {
    assert_eq!(IPPROTO_IP, 0);
    assert_eq!(IP_PKTINFO, 19);
    assert_eq!(PKTINFO_DATA_SIZE, 8);
    assert_eq!(control_pktinfo_buffer_size(win64()), 24);
    assert_eq!(control_pktinfo_buffer_size(win32()), 20);
}

#[test]
fn win_layout_64() {
    let control = encode_packet_info(win64(), &info([192, 168, 1, 7], 5));
    let expected: Vec<u8> = vec![
        24, 0, 0, 0, 0, 0, 0, 0, // length of the record
        0, 0, 0, 0, // level
        19, 0, 0, 0, // type
        192, 168, 1, 7, // address
        5, 0, 0, 0, // index
    ];
    assert_eq!(control, expected);
}

#[test]
fn win_layout_32() {
    let control = encode_packet_info(win32(), &info([10, 0, 0, 1], 0x0a0b_0c0d));
    let expected: Vec<u8> =
        vec![20, 0, 0, 0, 0, 0, 0, 0, 19, 0, 0, 0, 10, 0, 0, 1, 0x0d, 0x0c, 0x0b, 0x0a];
    assert_eq!(control, expected);
}

#[test]
fn win_to_s_addr_is_the_octets_in_memory() {
    let address = Ipv4Address::new(192, 168, 1, 7);
    assert_eq!(to_s_addr(ByteOrder::Little, &address), u32::from_le_bytes([192, 168, 1, 7]));
    assert_eq!(to_s_addr(ByteOrder::Little, &address), 0x0701_a8c0);
    assert_eq!(to_s_addr(ByteOrder::Big, &address), 0xc0a8_0107);
    assert_eq!(to_s_addr(ByteOrder::Little, &Ipv4Address::unspecified()), 0);
}

#[test]
fn win_packet_info_round_trip() {
    for abi in [win64(), win32()] {
        for index in [0u32, 1, 19, 255, 256, 0x8000_0000, u32::MAX] {
            let sent = info([172, 16, 254, 1], index);
            let control = encode_packet_info(abi, &sent);
            assert_eq!(control.len(), control_pktinfo_buffer_size(abi));
            assert_eq!(decode_packet_info(abi, &control), Some(sent));
        }
    }
}

#[test]
fn win_decode_short_buffer_is_none() {
    for abi in [win64(), win32()] {
        let control = encode_packet_info(abi, &info([1, 2, 3, 4], 6));
        for cut in 0..control.len() {
            assert_eq!(decode_packet_info(abi, &control[..cut]), None, "cut at {}", cut);
        }
    }
}

#[test]
fn win_decode_zeroed_or_other_record_is_none() {
    let abi = win64();
    assert_eq!(decode_packet_info(abi, &vec![0u8; 24]), None);
    let mut control = encode_packet_info(abi, &info([1, 2, 3, 4], 6));
    control[12] = 8;
    assert_eq!(decode_packet_info(abi, &control), None);
    control[12] = 19;
    control[8] = 41;
    assert_eq!(decode_packet_info(abi, &control), None);
    control[8] = 0;
    assert_eq!(decode_packet_info(abi, &control), Some(info([1, 2, 3, 4], 6)));
}

#[test]
fn win_decode_reads_the_first_record_of_a_longer_buffer() {
    let abi = win64();
    let mut control = encode_packet_info(abi, &info([1, 2, 3, 4], 6));
    control.extend_from_slice(&[0xaa; 9]);
    assert_eq!(decode_packet_info(abi, &control), Some(info([1, 2, 3, 4], 6)));
}

#[test]
fn win_index_as_address_holds_the_index_in_its_last_three_octets() {
    assert_eq!(index_as_address(1), Some(Ipv4Address::new(0, 0, 0, 1)));
    assert_eq!(index_as_address(12), Some(Ipv4Address::new(0, 0, 0, 12)));
    assert_eq!(index_as_address(0x0001_0203), Some(Ipv4Address::new(0, 1, 2, 3)));
    assert_eq!(index_as_address(0x00ab_cdef), Some(Ipv4Address::new(0, 0xab, 0xcd, 0xef)));
    assert_eq!(index_as_address(0x00ff_ffff), Some(Ipv4Address::new(0, 255, 255, 255)));
    // never zero for an index that is there, and never the default for the index 0
    assert_eq!(index_as_address(0x00ff_0000), Some(Ipv4Address::new(0, 255, 0, 0)));
    assert_eq!(index_as_address(0), None);
    assert_eq!(index_as_address(0x0100_0000), None);
    assert_eq!(index_as_address(u32::MAX), None);
}
