use multicast_socket::addr::{Ipv4Address, SocketAddressV4};
use multicast_socket::datagram::{Datagram, Receipt};
use multicast_socket::interfaces::NetworkInterface;
use multicast_socket::unix::{all_ipv4_interfaces, create_on_interfaces, encode_packet_info};
use multicast_socket::unix::{Interface, MulticastSocket, PacketInfo, Setup, SetupStep};
use multicast_socket::wire::{Abi, ByteOrder, PointerWidth};
use multicast_socket::{MulticastOptions, Timeout};

fn linux64() -> Abi {
    Abi { byte_order: ByteOrder::Little, pointer_width: PointerWidth::Bits64 }
}

fn mdns() -> SocketAddressV4 {
    SocketAddressV4::new(Ipv4Address::new(224, 0, 0, 251), 5353)
}

fn address_a() -> Ipv4Address {
    Ipv4Address::new(192, 168, 1, 10)
}

fn address_b() -> Ipv4Address {
    Ipv4Address::new(10, 0, 0, 5)
}

/// Carries a construction through with every call succeeding.
fn complete(mut setup: Setup) -> MulticastSocket {
    while setup.next_step().is_some() {
        setup = match setup.advance::<String>(Ok(())) {
            Ok(next) => next,
            Err(error) => panic!("no call failed, yet: {}", error),
        };
    }
    match setup.finish() {
        Some(socket) => socket,
        None => panic!("every call is made"),
    }
}

fn socket_on(interfaces: Vec<Ipv4Address>) -> MulticastSocket {
    complete(MulticastSocket::with_options(
        mdns(),
        interfaces,
        MulticastOptions::default(),
        linux64(),
    ))
}

/// What the system would hand back for a datagram that arrived on the
/// interface with the index `index`.
fn delivered(socket: &MulticastSocket, payload: &[u8], origin: SocketAddressV4, index: i32) -> Receipt {
    let mut receipt = socket.blank_receipt();
    receipt.buffer[..payload.len()].copy_from_slice(payload);
    receipt.received = payload.len();
    receipt.origin = Some(origin);
    let control = encode_packet_info(
        linux64(),
        &PacketInfo { index, spec_dst: address_a(), addr: mdns().ip },
    );
    receipt.control[..control.len()].copy_from_slice(&control);
    receipt.control_len = control.len();
    receipt
}

#[test]
fn unix_construction_steps_in_order() {
    let options = MulticastOptions {
        read_timeout: Timeout::from_millis(100),
        loopback: false,
        buffer_size: 1500,
        bind_address: Ipv4Address::new(224, 0, 0, 251),
    };
    let mut setup =
        create_on_interfaces(options, vec![address_a(), address_b()], mdns(), linux64());
    let mut steps = Vec::new();
    while let Some(step) = setup.next_step() {
        steps.push(step);
        setup = match setup.advance::<i32>(Ok(())) {
            Ok(next) => next,
            Err(_) => panic!("no call failed"),
        };
    }
    assert_eq!(
        steps,
        vec![
            SetupStep::CreateSocket,
            SetupStep::SetReadTimeout(Timeout::from_millis(100)),
            SetupStep::SetMulticastLoop(false),
            SetupStep::SetReuseAddress,
            SetupStep::SetReusePort,
            SetupStep::EnablePacketInfo,
            SetupStep::JoinMulticast { group: mdns().ip, interface: address_a() },
            SetupStep::JoinMulticast { group: mdns().ip, interface: address_b() },
            SetupStep::Bind { address: Ipv4Address::new(224, 0, 0, 251), port: 5353 },
        ]
    );
    let socket = match setup.finish() {
        Some(socket) => socket,
        None => panic!("every call is made"),
    };
    assert_eq!(socket.buffer_size(), 1500);
    assert_eq!(socket.multicast_address(), mdns());
    assert_eq!(socket.interfaces(), &vec![address_a(), address_b()]);
}

#[test]
fn unix_construction_binds_to_any_by_default() {
    let mut setup = MulticastSocket::with_options(
        mdns(),
        vec![address_a()],
        MulticastOptions::default(),
        linux64(),
    );
    let mut last = None;
    while let Some(step) = setup.next_step() {
        last = Some(step);
        setup = match setup.advance::<i32>(Ok(())) {
            Ok(next) => next,
            Err(_) => panic!("no call failed"),
        };
    }
    assert_eq!(last, Some(SetupStep::Bind { address: Ipv4Address::unspecified(), port: 5353 }));
}

#[test]
fn unix_construction_without_interfaces_joins_nothing() {
    let mut setup =
        create_on_interfaces(MulticastOptions::default(), Vec::new(), mdns(), linux64());
    let mut count = 0;
    while let Some(step) = setup.next_step() {
        assert!(!matches!(step, SetupStep::JoinMulticast { .. }));
        count += 1;
        setup = match setup.advance::<i32>(Ok(())) {
            Ok(next) => next,
            Err(_) => panic!("no call failed"),
        };
    }
    assert_eq!(count, 7);
    assert!(setup.finish().is_some());
}

#[test]
fn unix_construction_unfinished_gives_no_socket() {
    let mut setup = create_on_interfaces(
        MulticastOptions::default(),
        vec![address_a(), address_b()],
        mdns(),
        linux64(),
    );
    for _ in 0..8 {
        setup = match setup.advance::<i32>(Ok(())) {
            Ok(next) => next,
            Err(_) => panic!("no call failed"),
        };
    }
    // the bind is still to come
    assert_eq!(
        setup.next_step(),
        Some(SetupStep::Bind { address: Ipv4Address::unspecified(), port: 5353 })
    );
    assert!(setup.finish().is_none());
}

#[test]
fn unix_construction_fails_at_the_first_failed_call() {
    // the join on the second interface is call number 8
    for failing in 1..=9 {
        let mut setup = create_on_interfaces(
            MulticastOptions::default(),
            vec![address_a(), address_b()],
            mdns(),
            linux64(),
        );
        let mut made = 0;
        let error = loop {
            assert!(setup.next_step().is_some());
            made += 1;
            let outcome = if made == failing { Err(format!("call {} failed", made)) } else { Ok(()) };
            setup = match setup.advance(outcome) {
                Ok(next) => next,
                Err(error) => break error,
            };
        };
        assert_eq!(made, failing);
        assert_eq!(error, format!("call {} failed", failing));
    }
}

#[test]
fn unix_advance_after_the_last_call_changes_nothing() {
    let mut setup =
        create_on_interfaces(MulticastOptions::default(), Vec::new(), mdns(), linux64());
    for _ in 0..20 {
        setup = match setup.advance::<i32>(Ok(())) {
            Ok(next) => next,
            Err(_) => panic!("no call failed"),
        };
    }
    assert_eq!(setup.next_step(), None);
    assert!(setup.finish().is_some());
}

#[test]
fn unix_all_interfaces_uses_the_defaults() {
    let entries = vec![
        NetworkInterface { name: "lo".to_string(), address: Some(Ipv4Address::new(127, 0, 0, 1)), loopback: true },
        NetworkInterface { name: "eth0".to_string(), address: Some(address_a()), loopback: false },
        NetworkInterface { name: "eth0".to_string(), address: None, loopback: false },
        NetworkInterface { name: "eth0".to_string(), address: Some(Ipv4Address::new(192, 168, 1, 11)), loopback: false },
        NetworkInterface { name: "wlan0".to_string(), address: Some(address_b()), loopback: false },
    ];
    assert_eq!(all_ipv4_interfaces(&entries), vec![address_a(), address_b()]);
    let socket = complete(MulticastSocket::all_interfaces(mdns(), &entries, linux64()));
    assert_eq!(socket.interfaces(), &vec![address_a(), address_b()]);
    assert_eq!(socket.buffer_size(), 512);
    assert_eq!(socket.multicast_address(), mdns());
}

#[test]
fn unix_send_default_attaches_nothing() {
    let socket = socket_on(vec![address_a()]);
    let datagram = socket.send(&[9, 8, 7], &Interface::Default);
    assert_eq!(
        datagram,
        Datagram { payload: vec![9, 8, 7], destination: mdns(), control: Vec::new() }
    );
}

#[test]
fn unix_send_by_address_sets_the_local_address() {
    let socket = socket_on(vec![address_a()]);
    let datagram = socket.send(&[1, 2], &Interface::Ip(address_b()));
    assert_eq!(datagram.payload, vec![1, 2]);
    assert_eq!(datagram.destination, mdns());
    assert_eq!(
        datagram.control,
        vec![
            28, 0, 0, 0, 0, 0, 0, 0, 0, 0, 0, 0, 8, 0, 0, 0, 0, 0, 0, 0, 10, 0, 0, 5, 0, 0, 0, 0,
            0, 0, 0, 0
        ]
    );
}

#[test]
fn unix_send_by_index_hands_the_index_on() {
    let socket = socket_on(vec![address_a()]);
    let datagram = socket.send(&[], &Interface::Index(77));
    assert!(datagram.payload.is_empty());
    assert_eq!(
        datagram.control,
        vec![
            28, 0, 0, 0, 0, 0, 0, 0, 0, 0, 0, 0, 8, 0, 0, 0, 77, 0, 0, 0, 0, 0, 0, 0, 0, 0, 0, 0,
            0, 0, 0, 0
        ]
    );
}

#[test]
fn unix_send_by_unknown_index_is_not_the_default() {
    let socket = socket_on(vec![address_a()]);
    let default = socket.send(&[1], &Interface::Default);
    for index in [0, 1, 9999, -1, i32::MAX] {
        let by_index = socket.send(&[1], &Interface::Index(index));
        assert_ne!(by_index.control, default.control);
        assert_ne!(by_index, default);
    }
}

#[test]
fn unix_blank_receipt_has_the_configured_sizes() {
    let socket = socket_on(vec![address_a()]);
    let receipt = socket.blank_receipt();
    assert_eq!(receipt.buffer, vec![0u8; 512]);
    assert_eq!(receipt.control, vec![0u8; 32]);
    assert_eq!(receipt.received, 0);
    assert_eq!(receipt.control_len, 0);
    assert_eq!(receipt.origin, None);
    let message = socket.receive(&receipt);
    assert!(message.data.is_empty());
    assert_eq!(message.origin_address, SocketAddressV4::unknown());
    assert_eq!(message.interface, Interface::Default);
}

#[test]
fn unix_receive_cuts_the_payload_to_what_was_received() {
    let socket = socket_on(vec![address_a()]);
    let origin = SocketAddressV4::new(Ipv4Address::new(192, 168, 1, 20), 5353);
    let receipt = delivered(&socket, &[1, 2], origin, 2);
    assert_eq!(receipt.buffer.len(), 512);
    let message = socket.receive(&receipt);
    assert_eq!(message.data.len(), 2);
    assert_eq!(message.data, vec![1, 2]);
    assert_eq!(message.origin_address, origin);
    assert_eq!(message.interface, Interface::Index(2));
}

#[test]
fn unix_receive_never_reads_beyond_the_buffer() {
    let socket = socket_on(vec![address_a()]);
    let mut receipt = socket.blank_receipt();
    receipt.buffer = vec![5, 6, 7];
    receipt.received = 100;
    receipt.control_len = 100;
    let message = socket.receive(&receipt);
    assert_eq!(message.data, vec![5, 6, 7]);
    assert_eq!(message.interface, Interface::Default);
}

#[test]
fn unix_receive_without_ipv4_origin_reports_the_sentinel() {
    let socket = socket_on(vec![address_a()]);
    let mut receipt = delivered(&socket, &[1], mdns(), 2);
    receipt.origin = None;
    let message = socket.receive(&receipt);
    assert_eq!(message.origin_address, SocketAddressV4::new(Ipv4Address::new(0, 0, 0, 0), 0));
    assert_eq!(message.data, vec![1]);
}

#[test]
fn unix_receive_without_packet_info_reports_the_default() {
    let socket = socket_on(vec![address_a()]);
    let mut receipt = delivered(&socket, &[1, 2, 3], mdns(), 2);
    receipt.control_len = 0;
    assert_eq!(socket.receive(&receipt).interface, Interface::Default);
    // only what the call filled counts, not what lies behind it
    receipt.control_len = 27;
    assert_eq!(socket.receive(&receipt).interface, Interface::Default);
    receipt.control_len = 28;
    assert_eq!(socket.receive(&receipt).interface, Interface::Index(2));
}

#[test]
fn unix_receive_keeps_nothing_of_an_earlier_datagram() {
    let socket = socket_on(vec![address_a()]);
    let origin = SocketAddressV4::new(Ipv4Address::new(192, 168, 1, 20), 5353);
    let mut receipt = delivered(&socket, &[9, 9, 9, 9], origin, 2);
    assert_eq!(socket.receive(&receipt).data, vec![9, 9, 9, 9]);
    // the same buffers are used again for a shorter datagram without packet info
    receipt.buffer[0] = 1;
    receipt.received = 1;
    receipt.control_len = 0;
    receipt.origin = None;
    let message = socket.receive(&receipt);
    assert_eq!(message.data, vec![1]);
    assert_eq!(message.interface, Interface::Default);
    assert_eq!(message.origin_address, SocketAddressV4::unknown());
    // and the same receipt gives the same message again
    assert_eq!(socket.receive(&receipt), message);
}

#[test]
fn unix_broadcast_plans_one_datagram_for_each_interface() {
    let socket = socket_on(vec![address_a(), address_b()]);
    let mut plan = socket.broadcast(&[1, 2]);
    let mut sent = Vec::new();
    while let Some(datagram) = plan.next() {
        sent.push(datagram.clone());
        plan = match plan.advance::<usize, String>(Ok(2)) {
            Ok(next) => next,
            Err(_) => panic!("no send failed"),
        };
    }
    assert_eq!(
        sent,
        vec![
            socket.send(&[1, 2], &Interface::Ip(address_a())),
            socket.send(&[1, 2], &Interface::Ip(address_b())),
        ]
    );
    assert!(plan.is_complete());
}

#[test]
fn unix_broadcast_without_interfaces_sends_nothing() {
    let socket = socket_on(Vec::new());
    let plan = socket.broadcast(&[1, 2]);
    assert!(plan.next().is_none());
    assert!(plan.is_complete());
}

#[test]
fn unix_broadcast_stops_at_the_first_failed_send() {
    let third = Ipv4Address::new(172, 16, 0, 1);
    let socket = socket_on(vec![address_a(), address_b(), third]);
    let mut plan = socket.broadcast(&[1, 2]);
    let mut attempts = 0;
    let result: Result<(), String> = loop {
        if plan.next().is_none() {
            break Ok(());
        }
        attempts += 1;
        let outcome = if attempts == 2 { Err("network unreachable".to_string()) } else { Ok(2usize) };
        plan = match plan.advance(outcome) {
            Ok(next) => next,
            Err(error) => break Err(error),
        };
    };
    assert_eq!(attempts, 2);
    assert_eq!(result, Err("network unreachable".to_string()));
}

#[test]
fn unix_broadcast_attempts_every_interface_when_all_succeed() {
    let third = Ipv4Address::new(172, 16, 0, 1);
    let socket = socket_on(vec![address_a(), address_b(), third]);
    let mut plan = socket.broadcast(&[1, 2]);
    let mut attempts = 0;
    while plan.next().is_some() {
        attempts += 1;
        plan = match plan.advance::<usize, String>(Ok(2)) {
            Ok(next) => next,
            Err(_) => panic!("no send failed"),
        };
    }
    assert_eq!(attempts, 3);
    assert_eq!(plan.completed(), 3);
}

#[test]
fn unix_broadcast_reaches_a_listener_over_loopback() {
    let loopback = Ipv4Address::new(127, 0, 0, 1);
    let sender = socket_on(vec![loopback]);
    let listener = socket_on(vec![loopback]);
    let payload = [3u8, 1, 4, 1, 5, 9, 2, 6];
    let plan = sender.broadcast(&payload);
    let datagram = match plan.next() {
        Some(datagram) => datagram.clone(),
        None => panic!("one interface, one datagram"),
    };
    assert_eq!(datagram.destination, listener.multicast_address());
    // the system delivers the datagram's payload into the listener's buffers
    let origin = SocketAddressV4::new(loopback, 5353);
    let receipt = delivered(&listener, &datagram.payload, origin, 1);
    let message = listener.receive(&receipt);
    assert_eq!(message.data, payload.to_vec());
    assert_eq!(message.origin_address, origin);
}

#[test]
fn unix_scenario_two_interfaces_listener_on_the_first() {
    let index_of_a = 2;
    let index_of_b = 3;
    let sender = socket_on(vec![address_a(), address_b()]);
    let listener = socket_on(vec![address_a()]);
    assert_eq!(sender.multicast_address(), SocketAddressV4::new(Ipv4Address::new(224, 0, 0, 251), 5353));
    let mut plan = sender.broadcast(&[1, 2]);
    let mut datagrams = Vec::new();
    while let Some(datagram) = plan.next() {
        datagrams.push(datagram.clone());
        plan = match plan.advance::<usize, String>(Ok(2)) {
            Ok(next) => next,
            Err(_) => panic!("no send failed"),
        };
    }
    assert_eq!(datagrams.len(), 2);
    assert_eq!(datagrams[0], sender.send(&[1, 2], &Interface::Ip(address_a())));
    // the datagram that left by way of A arrives at the listener on A
    let origin = SocketAddressV4::new(address_a(), 5353);
    let receipt = delivered(&listener, &datagrams[0].payload, origin, index_of_a);
    let message = listener.receive(&receipt);
    assert_eq!(message.data, vec![1, 2]);
    assert_eq!(message.interface, Interface::Index(index_of_a));
    assert_ne!(message.interface, Interface::Index(index_of_b));
    // and the answer can go out by the interface that the message names
    let answer = sender.send(&[9, 8, 7], &message.interface);
    assert_eq!(answer.control[16..20], [2, 0, 0, 0]);
}
