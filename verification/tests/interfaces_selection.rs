use multicast_socket::addr::Ipv4Address;
use multicast_socket::interfaces::{is_eligible, select_ipv4_interfaces, NetworkInterface};

fn entry(name: &str, address: Option<[u8; 4]>, loopback: bool) -> NetworkInterface {
    NetworkInterface {
        name: name.to_string(),
        address: address.map(Ipv4Address::from_octets),
        loopback,
    }
}

#[test]
fn selection_of_nothing_is_empty() {
    assert!(select_ipv4_interfaces(&Vec::new()).is_empty());
}

#[test]
fn selection_drops_loopback_and_ipv6() {
    let entries = vec![
        entry("lo", Some([127, 0, 0, 1]), true),
        entry("lo", None, true),
        entry("eth0", None, false),
        entry("eth0", Some([192, 168, 1, 10]), false),
    ];
    assert!(!is_eligible(&entries[0]));
    assert!(!is_eligible(&entries[1]));
    assert!(!is_eligible(&entries[2]));
    assert!(is_eligible(&entries[3]));
    assert_eq!(select_ipv4_interfaces(&entries), vec![Ipv4Address::new(192, 168, 1, 10)]);
}

#[test]
fn selection_takes_the_first_address_of_an_interface() {
    let entries = vec![
        entry("eth0", Some([192, 168, 1, 10]), false),
        entry("wlan0", Some([10, 0, 0, 5]), false),
        entry("eth0", Some([192, 168, 1, 11]), false),
        entry("wlan0", Some([10, 0, 0, 6]), false),
        entry("eth0", Some([192, 168, 1, 12]), false),
    ];
    assert_eq!(
        select_ipv4_interfaces(&entries),
        vec![Ipv4Address::new(192, 168, 1, 10), Ipv4Address::new(10, 0, 0, 5)]
    );
}

#[test]
fn selection_is_not_held_up_by_entries_that_cannot_be_joined() {
    // the first entry of eth0 is no IPv4 address: the second stands for it
    let entries = vec![
        entry("eth0", None, false),
        entry("eth0", Some([192, 168, 1, 10]), false),
        entry("dummy0", Some([127, 0, 0, 2]), true),
        entry("dummy0", Some([172, 16, 0, 1]), false),
    ];
    assert_eq!(
        select_ipv4_interfaces(&entries),
        vec![Ipv4Address::new(192, 168, 1, 10), Ipv4Address::new(172, 16, 0, 1)]
    );
}

#[test]
fn selection_keeps_equal_addresses_of_different_interfaces() {
    let entries = vec![
        entry("eth0", Some([10, 0, 0, 1]), false),
        entry("eth1", Some([10, 0, 0, 1]), false),
    ];
    assert_eq!(
        select_ipv4_interfaces(&entries),
        vec![Ipv4Address::new(10, 0, 0, 1), Ipv4Address::new(10, 0, 0, 1)]
    );
}
