//! The Windows variant: Winsock's control-message layout, and an index of
//! the adapters by which an interface index is turned into an address.

use crate::addr::{Ipv4Address, SocketAddressV4};
use crate::cmsg::lemma_header_round_trip;
use crate::cmsg::{get_header, header_at, header_bytes, header_len, put_header, spec_header_len};
use crate::datagram::{prefix, take_prefix, Datagram, Packet, Receipt};
use crate::interfaces::{select_ipv4_interfaces, selection, NetworkInterface};
use crate::plan::lemma_run_stops_at_first_failure;
use crate::plan::{lemma_run_all_succeed, lemma_run_ends_well_only_after_every_step};
use crate::plan::{Plan, Progress};
use crate::wire::{get_u32, put_u32, u32_bytes, u32_value, Abi, ByteOrder};
use crate::wire::{lemma_u32_bytes_of_value, lemma_u32_round_trip};
use crate::{MulticastOptions, Timeout};
use std::collections::HashMap;
use vstd::prelude::*;
use vstd::std_specs::hash::spec_values_iter;
use vstd::std_specs::iter::IteratorSpec;

verus! {

broadcast use vstd::std_specs::hash::group_hash_axioms;

/// The protocol level of IPv4 ancillary records.
pub const IPPROTO_IP: i32 = 0;

/// The record type of a packet-info record among the IPv4 ones.
pub const IP_PKTINFO: i32 = 19;

/// The number of bytes of a packet-info payload: an address and an index.
pub const PKTINFO_DATA_SIZE: usize = 8;

/// The payload of a packet-info record: the address and the index of one
/// interface.
#[derive(Clone, Copy, Debug, PartialEq, Eq, Structural)]
pub struct PacketInfo {
    pub address: Ipv4Address,
    pub index: u32,
}

/// The number of bytes of a control buffer that holds exactly one
/// packet-info record: the header and the payload, nothing between them and
/// nothing after.
pub open spec fn spec_control_pktinfo_buffer_size(abi: Abi) -> nat {
    spec_header_len(abi) + 8
}

/// The value of the address field `S_addr` for `address`: the 32-bit integer
/// whose bytes in memory are the octets of the address in network order.
pub open spec fn spec_to_s_addr(order: ByteOrder, address: Ipv4Address) -> u32 {
    u32_value(order, address.spec_octets())
}

/// The bytes of a control buffer that holds the one record `info`.
///
/// | offset            | bytes | field                                   |
/// |-------------------|-------|-----------------------------------------|
/// | 0                 | 4 / 8 | length of the record, header included   |
/// | 4 / 8             | 4     | level, [`IPPROTO_IP`]                   |
/// | 8 / 12            | 4     | type, [`IP_PKTINFO`]                    |
/// | 12 / 16           | 4     | address, in network order               |
/// | 16 / 20           | 4     | interface index                         |
pub open spec fn packet_info_bytes(abi: Abi, info: PacketInfo) -> Seq<u8> {
    header_bytes(
        abi,
        spec_control_pktinfo_buffer_size(abi) as u32,
        IPPROTO_IP,
        IP_PKTINFO,
    ) + info.address.spec_octets() + u32_bytes(abi.byte_order, info.index)
}

/// The packet-info record at the start of `control`: present where `control`
/// is long enough for one and its header carries the two tags of a
/// packet-info record.
pub open spec fn packet_info_in(abi: Abi, control: Seq<u8>) -> Option<PacketInfo> {
    let start = spec_header_len(abi) as int;
    if control.len() < spec_control_pktinfo_buffer_size(abi) {
        None
    } else {
        match header_at(abi, control, 0) {
            Some(header) => if header.level == IPPROTO_IP && header.kind == IP_PKTINFO {
                let octets = control.subrange(start, start + 4);
                Some(
                    PacketInfo {
                        address: Ipv4Address {
                            a: octets[0],
                            b: octets[1],
                            c: octets[2],
                            d: octets[3],
                        },
                        index: u32_value(abi.byte_order, control.subrange(start + 4, start + 8)),
                    },
                )
            } else {
                None
            },
            None => None,
        }
    }
}

/// The number of bytes of a control buffer for one packet-info record: 20
/// with 32-bit pointers, 24 with 64-bit ones.
pub fn control_pktinfo_buffer_size(abi: Abi) -> (size: usize)
    ensures
        size == spec_control_pktinfo_buffer_size(abi),
{
    header_len(abi) + PKTINFO_DATA_SIZE
}

/// The value of the address field `S_addr` for `address`.
pub fn to_s_addr(order: ByteOrder, address: &Ipv4Address) -> (s_addr: u32)
    ensures
        s_addr == spec_to_s_addr(order, *address),
        u32_bytes(order, s_addr) == address.spec_octets(),
{
    let octets = address.octets();
    proof {
        lemma_u32_bytes_of_value(order, address.spec_octets());
    }
    match get_u32(octets.as_slice(), 0, order) {
        Some(value) => {
            assert(octets@.subrange(0, 4) == address.spec_octets());
            value
        },
        None => 0,
    }
}

/// Lays out the control buffer that carries the one record `info`.
pub fn encode_packet_info(abi: Abi, info: &PacketInfo) -> (control: Vec<u8>)
    ensures
        control@ == packet_info_bytes(abi, *info),
        control@.len() == spec_control_pktinfo_buffer_size(abi),
{
    let size = control_pktinfo_buffer_size(abi);
    let mut control: Vec<u8> = Vec::with_capacity(size);
    put_header(&mut control, abi, size as u32, IPPROTO_IP, IP_PKTINFO);
    put_u32(&mut control, abi.byte_order, to_s_addr(abi.byte_order, &info.address));
    put_u32(&mut control, abi.byte_order, info.index);
    proof {
        lemma_header_round_trip(abi, size as u32, IPPROTO_IP, IP_PKTINFO, Seq::empty());
        lemma_u32_round_trip(abi.byte_order, info.index);
        assert(control@ == packet_info_bytes(abi, *info));
    }
    control
}

/// Reads the packet-info record at the start of `control`, after checking
/// that `control` is long enough to hold one.
pub fn decode_packet_info(abi: Abi, control: &[u8]) -> (info: Option<PacketInfo>)
    ensures
        info == packet_info_in(abi, control@),
{
    let start = header_len(abi);
    if control.len() < start + PKTINFO_DATA_SIZE {
        return None;
    }
    match get_header(abi, control, 0) {
        Some(header) => {
            if header.level == IPPROTO_IP && header.kind == IP_PKTINFO {
                let index = get_u32(control, start + 4, abi.byte_order);
                let ghost octets = control@.subrange(start as int, start + 4);
                assert(octets[0] == control@[start as int] && octets[3] == control@[start + 3]);
                match index {
                    Some(index) => Some(
                        PacketInfo {
                            address: Ipv4Address {
                                a: control[start],
                                b: control[start + 1],
                                c: control[start + 2],
                                d: control[start + 3],
                            },
                            index,
                        },
                    ),
                    None => None,
                }
            } else {
                None
            }
        },
        None => None,
    }
}

/// A packet-info record is read back as it was laid out.
pub proof fn lemma_packet_info_round_trip(abi: Abi, info: PacketInfo)
    ensures
        packet_info_bytes(abi, info).len() == spec_control_pktinfo_buffer_size(abi),
        packet_info_in(abi, packet_info_bytes(abi, info)) == Some(info),
{
    let order = abi.byte_order;
    let size = spec_control_pktinfo_buffer_size(abi) as u32;
    let start = spec_header_len(abi) as int;
    let rest = info.address.spec_octets() + u32_bytes(order, info.index);
    let control = packet_info_bytes(abi, info);
    lemma_u32_round_trip(order, info.index);
    lemma_header_round_trip(abi, size, IPPROTO_IP, IP_PKTINFO, rest);
    assert(control == header_bytes(abi, size, IPPROTO_IP, IP_PKTINFO) + rest);
    assert(control.subrange(start, start + 4) == info.address.spec_octets());
    assert(control.subrange(start + 4, start + 8) == u32_bytes(order, info.index));
}

/// The address that names the interface `index` where an interface is
/// chosen by a socket option that takes an address: `0.x.y.z`, whose last
/// three octets are the index as a 24-bit number, most significant octet
/// first. There is none for the index 0, which would read as `0.0.0.0` and
/// so as no choice at all, nor for an index that 24 bits cannot hold.
pub open spec fn spec_index_as_address(index: u32) -> Option<Ipv4Address> {
    if 0 < index < 0x100_0000 {
        Some(
            Ipv4Address {
                a: 0,
                b: (index / 65536) as u8,
                c: (index / 256 % 256) as u8,
                d: (index % 256) as u8,
            },
        )
    } else {
        None
    }
}

/// The address that names the interface `index` in the multicast-interface
/// option, if there is one.
pub fn index_as_address(index: u32) -> (address: Option<Ipv4Address>)
    ensures
        address == spec_index_as_address(index),
        address matches Some(named) ==> named.a == 0 && named.b * 65536 + named.c * 256 + named.d
            == index,
{
    if index == 0 || index >= 0x100_0000 {
        None
    } else {
        Some(
            Ipv4Address {
                a: 0,
                b: (index / 65536) as u8,
                c: (index / 256 % 256) as u8,
                d: (index % 256) as u8,
            },
        )
    }
}

/// One entry of the operating system's adapter list.
#[derive(Clone, Copy, Debug, PartialEq, Eq, Structural)]
pub struct Adapter {
    /// The index that the system assigned to the adapter.
    pub index: u32,
    /// The adapter's first address, where it is an IPv4 address.
    pub address: Option<Ipv4Address>,
}

/// Whether `address` is one of `interfaces`.
pub open spec fn requested(interfaces: Seq<Ipv4Address>, address: Ipv4Address) -> bool {
    exists|i: int| 0 <= i < interfaces.len() && interfaces[i] == address
}

/// The table from interface index to address for the first `count` entries
/// of `adapters`: it holds each adapter whose address is one of `interfaces`,
/// and where two adapters share an index, the later one.
pub open spec fn address_table(
    interfaces: Seq<Ipv4Address>,
    adapters: Seq<Adapter>,
    count: nat,
) -> Map<u32, Ipv4Address>
    decreases count,
{
    if count == 0 {
        Map::empty()
    } else {
        let earlier = address_table(interfaces, adapters, (count - 1) as nat);
        let adapter = adapters[count - 1];
        match adapter.address {
            Some(address) => if requested(interfaces, address) {
                earlier.insert(adapter.index, address)
            } else {
                earlier
            },
            None => earlier,
        }
    }
}

/// Whether `address` is one of `interfaces`.
pub fn is_requested(interfaces: &Vec<Ipv4Address>, address: &Ipv4Address) -> (found: bool)
    ensures
        found == requested(interfaces@, *address),
{
    let mut i: usize = 0;
    while i < interfaces.len()
        invariant
            i <= interfaces@.len(),
            forall|j: int| 0 <= j < i ==> interfaces@[j] != *address,
        decreases interfaces@.len() - i,
    {
        if interfaces[i] == *address {
            return true;
        }
        i = i + 1;
    }
    false
}

/// Builds the table from interface index to address out of the system's
/// adapter list, keeping the adapters whose address is one of `interfaces`.
pub fn build_address_table(interfaces: &Vec<Ipv4Address>, adapters: &Vec<Adapter>) -> (table:
    HashMap<u32, Ipv4Address>)
    ensures
        table@ == address_table(interfaces@, adapters@, adapters@.len()),
{
    let mut table: HashMap<u32, Ipv4Address> = HashMap::new();
    let mut i: usize = 0;
    while i < adapters.len()
        invariant
            i <= adapters@.len(),
            table@ == address_table(interfaces@, adapters@, i as nat),
        decreases adapters@.len() - i,
    {
        let adapter = adapters[i];
        match adapter.address {
            Some(address) => {
                if is_requested(interfaces, &address) {
                    table.insert(adapter.index, address);
                }
            },
            None => {},
        }
        i = i + 1;
    }
    table
}

/// The addresses that `table` holds, one for each index, in the order in
/// which the table hands them out.
pub fn table_addresses(table: &HashMap<u32, Ipv4Address>) -> (addresses: Vec<Ipv4Address>)
    ensures
        addresses@.len() == table@.dom().len(),
        addresses@.to_set() == table@.values(),
{
    let mut addresses: Vec<Ipv4Address> = Vec::new();
    for address in it: table.values()
        invariant
            addresses@.len() == it.index(),
            forall|j: int| 0 <= j < addresses@.len() ==> addresses@[j] == *it.seq()[j],
            it.seq() == spec_values_iter(table).remaining(),
    {
        addresses.push(*address);
    }
    proof {
        let handed = spec_values_iter(table).remaining();
        assert(addresses@ == handed.unref());
    }
    addresses
}

/// The interface that a datagram arrived on, or the one it is to leave on.
#[derive(Clone, Copy, Debug, PartialEq, Eq, Structural)]
pub enum Interface {
    /// No interface is named: the system chooses, or did not say.
    Default,
    /// The interface that has this address.
    Ip(Ipv4Address),
    /// The interface that the system knows under this index. An index means
    /// something only on the machine, and to the socket, that reported it.
    Index(u32),
}

/// One received datagram.
#[derive(Clone, Debug, PartialEq, Eq)]
pub struct Message {
    /// The payload: as many bytes as were received, no more.
    pub data: Vec<u8>,
    /// The sender, or `0.0.0.0:0` where the sender is not an IPv4 endpoint.
    pub origin_address: SocketAddressV4,
    /// The interface that the datagram arrived on, where the system said so.
    pub interface: Interface,
}

/// Why a datagram could not be prepared for sending.
#[derive(Clone, Copy, Debug, PartialEq, Eq, Structural)]
pub enum SendError {
    /// The socket knows no interface under this index.
    UnknownInterface(u32),
}

/// The interface that the ancillary data of a received datagram names: the
/// index of its packet-info record, and [`Interface::Default`] where it holds
/// none.
pub open spec fn arrival_interface(abi: Abi, control: Seq<u8>) -> Interface {
    match packet_info_in(abi, control) {
        Some(info) => Interface::Index(info.index),
        None => Interface::Default,
    }
}

/// A multicast socket, as far as its decisions go: the group it sends to, the
/// interfaces it has joined the group on, and the size of its receive
/// buffer. All three are fixed when the socket is made.
pub struct MulticastSocket {
    interfaces: HashMap<u32, Ipv4Address>,
    multicast_address: SocketAddressV4,
    buffer_size: usize,
    abi: Abi,
}

impl MulticastSocket {
    /// The table from interface index to address.
    pub closed spec fn spec_interfaces(&self) -> Map<u32, Ipv4Address> {
        self.interfaces@
    }

    /// The multicast group and port.
    pub closed spec fn spec_multicast_address(&self) -> SocketAddressV4 {
        self.multicast_address
    }

    /// The number of bytes of the receive buffer.
    pub closed spec fn spec_buffer_size(&self) -> usize {
        self.buffer_size
    }

    /// The layout parameters of the target.
    pub closed spec fn spec_abi(&self) -> Abi {
        self.abi
    }

    /// The ancillary data that selects `interface` for one send, or nothing
    /// where `interface` is an index that the socket does not know.
    pub open spec fn control_for(&self, interface: Interface) -> Option<Seq<u8>> {
        match interface {
            Interface::Default => Some(Seq::empty()),
            Interface::Ip(address) => Some(
                packet_info_bytes(self.spec_abi(), PacketInfo { address, index: 0 }),
            ),
            Interface::Index(index) => if self.spec_interfaces().contains_key(index) {
                Some(
                    packet_info_bytes(
                        self.spec_abi(),
                        PacketInfo { address: self.spec_interfaces()[index], index },
                    ),
                )
            } else {
                None
            },
        }
    }

    /// The multicast group and port that every datagram is sent to.
    pub fn multicast_address(&self) -> (group: SocketAddressV4)
        ensures
            group == self.spec_multicast_address(),
    {
        self.multicast_address
    }

    /// The number of bytes of the receive buffer.
    pub fn buffer_size(&self) -> (size: usize)
        ensures
            size == self.spec_buffer_size(),
    {
        self.buffer_size
    }

    /// The address of the interface with the given index, if the socket
    /// knows one.
    pub fn resolve(&self, index: u32) -> (address: Option<Ipv4Address>)
        ensures
            address == if self.spec_interfaces().contains_key(index) {
                Some(self.spec_interfaces()[index])
            } else {
                None
            },
    {
        match self.interfaces.get(&index) {
            Some(address) => Some(*address),
            None => None,
        }
    }

    /// Prepares one datagram for the multicast group, to leave on
    /// `interface`.
    ///
    /// With [`Interface::Default`] nothing is attached. An address is
    /// attached as it is. An index is looked up in the socket's table and
    /// attached together with its address; an index that the table lacks is
    /// an error, never a silent fall back to the default.
    pub fn send(&self, buf: &[u8], interface: &Interface) -> (prepared: Result<
        Datagram,
        SendError,
    >)
        ensures
            match prepared {
                Ok(datagram) => {
                    &&& self.control_for(*interface) == Some(datagram.control@)
                    &&& datagram.payload@ == buf@
                    &&& datagram.destination == self.spec_multicast_address()
                    &&& datagram.control@.len() == if *interface is Default {
                        0
                    } else {
                        spec_control_pktinfo_buffer_size(self.spec_abi())
                    }
                },
                Err(error) => {
                    &&& self.control_for(*interface) is None
                    &&& *interface matches Interface::Index(index)
                    &&& error == SendError::UnknownInterface(index)
                },
            },
    {
        let pkt_info: Option<PacketInfo> = match interface {
            Interface::Default => None,
            Interface::Ip(address) => Some(PacketInfo { address: *address, index: 0 }),
            Interface::Index(index) => match self.resolve(*index) {
                Some(address) => Some(PacketInfo { address, index: *index }),
                None => {
                    return Err(SendError::UnknownInterface(*index));
                },
            },
        };
        let control = match pkt_info {
            Some(info) => encode_packet_info(self.abi, &info),
            None => Vec::new(),
        };
        Ok(
            Datagram {
                payload: take_prefix(buf, buf.len()),
                destination: self.multicast_address,
                control,
            },
        )
    }

    /// A receipt to hand to one receive call: a zeroed data buffer of the
    /// configured size, and a zeroed ancillary buffer with room for exactly
    /// one packet-info record.
    pub fn blank_receipt(&self) -> (receipt: Receipt)
        ensures
            receipt.buffer@ == Seq::new(self.spec_buffer_size() as nat, |i: int| 0u8),
            receipt.control@ == Seq::new(
                spec_control_pktinfo_buffer_size(self.spec_abi()),
                |i: int| 0u8,
            ),
            receipt.received == 0,
            receipt.control_len == 0,
            receipt.origin is None,
    {
        let buffer = vec![0u8; self.buffer_size];
        let control = vec![0u8; control_pktinfo_buffer_size(self.abi)];
        assert(buffer@ == Seq::new(self.spec_buffer_size() as nat, |i: int| 0u8));
        assert(control@ == Seq::new(
            spec_control_pktinfo_buffer_size(self.spec_abi()),
            |i: int| 0u8,
        ));
        Receipt { buffer, received: 0, origin: None, control, control_len: 0 }
    }

    /// Turns what one receive call left behind into a message.
    ///
    /// The payload is cut to the number of bytes received; the origin is
    /// `0.0.0.0:0` where the call reported no IPv4 endpoint; the interface is
    /// the index of the packet-info record in the filled part of the
    /// ancillary buffer, and the default where that part holds none.
    pub fn receive(&self, receipt: &Receipt) -> (message: Message)
        ensures
            message.data@ == prefix(receipt.buffer@, receipt.received as nat),
            message.data@.len() <= receipt.received,
            message.origin_address == match receipt.origin {
                Some(origin) => origin,
                None => SocketAddressV4::spec_unknown(),
            },
            message.interface == arrival_interface(
                self.spec_abi(),
                prefix(receipt.control@, receipt.control_len as nat),
            ),
    {
        let origin_address = match receipt.origin {
            Some(origin) => origin,
            None => SocketAddressV4::unknown(),
        };
        let filled = take_prefix(receipt.control.as_slice(), receipt.control_len);
        let interface = match decode_packet_info(self.abi, filled.as_slice()) {
            Some(info) => Interface::Index(info.index),
            None => Interface::Default,
        };
        Message {
            data: take_prefix(receipt.buffer.as_slice(), receipt.received),
            origin_address,
            interface,
        }
    }

    /// The datagram that carries `payload` to the group by way of the
    /// interface with the address `target`.
    pub open spec fn datagram_by_address(&self, payload: Seq<u8>, target: Ipv4Address) -> Packet {
        Packet {
            payload,
            destination: self.spec_multicast_address(),
            control: packet_info_bytes(self.spec_abi(), PacketInfo { address: target, index: 0 }),
        }
    }

    /// Whether `steps` send `payload` once by way of each of `targets`, and
    /// `targets` are the addresses of the socket's interfaces, one for each
    /// index.
    pub open spec fn broadcasts(
        &self,
        payload: Seq<u8>,
        targets: Seq<Ipv4Address>,
        steps: Seq<Datagram>,
    ) -> bool {
        &&& targets.len() == self.spec_interfaces().dom().len()
        &&& targets.to_set() == self.spec_interfaces().values()
        &&& steps.len() == targets.len()
        &&& forall|i: int|
            0 <= i < steps.len() ==> (#[trigger] steps[i])@ == self.datagram_by_address(
                payload,
                targets[i],
            )
    }

    /// Plans one send of `buf` by way of every interface of the socket, each
    /// selected by its address.
    ///
    /// The plan stops at the first send that fails, and the interfaces after
    /// it are not tried. In which order the interfaces come is not
    /// promised.
    pub fn broadcast(&self, buf: &[u8]) -> (plan: Plan<Datagram>)
        ensures
            plan@.done == 0,
            exists|targets: Seq<Ipv4Address>| #[trigger]
                self.broadcasts(buf@, targets, plan@.steps),
    {
        let targets = table_addresses(&self.interfaces);
        let mut steps: Vec<Datagram> = Vec::with_capacity(targets.len());
        let mut i: usize = 0;
        while i < targets.len()
            invariant
                i <= targets@.len(),
                steps@.len() == i,
                forall|j: int|
                    0 <= j < i ==> (#[trigger] steps@[j])@ == self.datagram_by_address(
                        buf@,
                        targets@[j],
                    ),
            decreases targets@.len() - i,
        {
            match self.send(buf, &Interface::Ip(targets[i])) {
                Ok(datagram) => {
                    steps.push(datagram);
                },
                Err(_) => {},
            }
            i = i + 1;
        }
        let plan = Plan::new(steps);
        assert(self.broadcasts(buf@, targets@, plan@.steps));
        plan
    }
}

/// One call to make while a socket is constructed.
#[derive(Clone, Copy, Debug, PartialEq, Eq, Structural)]
pub enum SetupStep {
    /// Allocate a UDP socket for IPv4.
    CreateSocket,
    /// Set how long a receive waits.
    SetReadTimeout(Timeout),
    /// Set whether the host hears its own multicast datagrams.
    SetMulticastLoop(bool),
    /// Let other sockets on the host share the address.
    SetReuseAddress,
    /// Ask for a packet-info record with every received datagram.
    EnablePacketInfo,
    /// Look up the entry point that receives with ancillary data.
    LocateReceiveExtension,
    /// Look up the entry point that sends with ancillary data.
    LocateSendExtension,
    /// Join `group` on the interface with the address `interface`.
    JoinMulticast { group: Ipv4Address, interface: Ipv4Address },
    /// Bind the socket to `address` and `port`.
    Bind { address: Ipv4Address, port: u16 },
}

/// The number of steps before the first join.
pub const STEPS_BEFORE_JOIN: usize = 7;

/// One join for each address of `interfaces`, in their order.
pub open spec fn join_steps(group: Ipv4Address, interfaces: Seq<Ipv4Address>) -> Seq<SetupStep> {
    Seq::new(
        interfaces.len(),
        |i: int| SetupStep::JoinMulticast { group, interface: interfaces[i] },
    )
}

/// The calls that construct a socket, in the order in which they are made:
/// the socket and its options, the two entry points, one join for each
/// interface, and last the bind. Binding a multicast address is not
/// permitted here, so the socket is always bound to `0.0.0.0`, whatever the
/// options say.
pub open spec fn setup_steps(
    options: MulticastOptions,
    interfaces: Seq<Ipv4Address>,
    multicast_address: SocketAddressV4,
) -> Seq<SetupStep> {
    seq![
        SetupStep::CreateSocket,
        SetupStep::SetReadTimeout(options.read_timeout),
        SetupStep::SetMulticastLoop(options.loopback),
        SetupStep::SetReuseAddress,
        SetupStep::EnablePacketInfo,
        SetupStep::LocateReceiveExtension,
        SetupStep::LocateSendExtension,
    ] + join_steps(multicast_address.ip, interfaces) + seq![
        SetupStep::Bind {
            address: Ipv4Address::spec_unspecified(),
            port: multicast_address.port,
        },
    ]
}

/// A socket under construction: the calls still to make, and what the
/// finished socket will hold.
pub struct Setup {
    plan: Plan<SetupStep>,
    options: MulticastOptions,
    interfaces: Vec<Ipv4Address>,
    multicast_address: SocketAddressV4,
    abi: Abi,
}

impl Setup {
    #[verifier::type_invariant]
    spec fn well_formed(self) -> bool {
        &&& self.plan@.steps == setup_steps(self.options, self.interfaces@, self.multicast_address)
        &&& self.plan@.done <= self.plan@.steps.len()
    }

    /// The calls of this construction, and how many of them are made.
    pub closed spec fn spec_progress(&self) -> Progress<SetupStep> {
        self.plan@
    }

    /// The options that the socket is made with.
    pub closed spec fn spec_options(&self) -> MulticastOptions {
        self.options
    }

    /// The addresses of the interfaces to join.
    pub closed spec fn spec_interfaces(&self) -> Seq<Ipv4Address> {
        self.interfaces@
    }

    /// The multicast group and port.
    pub closed spec fn spec_multicast_address(&self) -> SocketAddressV4 {
        self.multicast_address
    }

    /// The layout parameters of the target.
    pub closed spec fn spec_abi(&self) -> Abi {
        self.abi
    }

    /// Whether `next` is this construction with another state of its calls
    /// and nothing else changed.
    pub open spec fn same_socket(&self, next: Setup) -> bool {
        &&& next.spec_options() == self.spec_options()
        &&& next.spec_interfaces() == self.spec_interfaces()
        &&& next.spec_multicast_address() == self.spec_multicast_address()
        &&& next.spec_abi() == self.spec_abi()
    }

    /// The call to make now, or nothing where all are made.
    pub fn next_step(&self) -> (step: Option<SetupStep>)
        ensures
            step == self.spec_progress().pending(),
            self.spec_progress().steps == setup_steps(
                self.spec_options(),
                self.spec_interfaces(),
                self.spec_multicast_address(),
            ),
            self.spec_progress().done <= self.spec_progress().steps.len(),
    {
        proof {
            use_type_invariant(self);
        }
        match self.plan.next() {
            Some(step) => Some(*step),
            None => None,
        }
    }

    /// Takes the outcome of the pending call. After a success the
    /// construction goes on with the next call. After a failure it is over:
    /// what comes back is the error, and no socket can come of it.
    pub fn advance<E>(self, outcome: Result<(), E>) -> (next: Result<Setup, E>)
        ensures
            match next {
                Ok(next) => {
                    &&& self.spec_progress().advance(outcome) == Ok::<Progress<SetupStep>, E>(
                        next.spec_progress(),
                    )
                    &&& self.same_socket(next)
                },
                Err(error) => outcome == Err::<(), E>(error),
            },
    {
        proof {
            use_type_invariant(&self);
        }
        match self.plan.advance(outcome) {
            Ok(plan) => Ok(
                Setup {
                    plan,
                    options: self.options,
                    interfaces: self.interfaces,
                    multicast_address: self.multicast_address,
                    abi: self.abi,
                },
            ),
            Err(error) => Err(error),
        }
    }

    /// Ends the construction. Once every call is made it comes to the
    /// socket, whose table of interfaces is built from the system's adapter
    /// list; before that it comes to nothing.
    pub fn finish(self, adapters: &Vec<Adapter>) -> (socket: Option<MulticastSocket>)
        ensures
            match socket {
                Some(socket) => {
                    &&& self.spec_progress().pending() is None
                    &&& socket.spec_interfaces() == address_table(
                        self.spec_interfaces(),
                        adapters@,
                        adapters@.len(),
                    )
                    &&& socket.spec_multicast_address() == self.spec_multicast_address()
                    &&& socket.spec_buffer_size() == self.spec_options().buffer_size
                    &&& socket.spec_abi() == self.spec_abi()
                },
                None => self.spec_progress().pending() is Some,
            },
    {
        if self.plan.is_complete() {
            Some(
                MulticastSocket {
                    interfaces: build_address_table(&self.interfaces, adapters),
                    multicast_address: self.multicast_address,
                    buffer_size: self.options.buffer_size,
                    abi: self.abi,
                },
            )
        } else {
            None
        }
    }
}

/// Starts the construction of a socket for the group `multicast_address`
/// that joins the group on each of `interfaces`.
pub fn create_on_interfaces(
    options: MulticastOptions,
    interfaces: Vec<Ipv4Address>,
    multicast_address: SocketAddressV4,
    abi: Abi,
) -> (setup: Setup)
    ensures
        setup.spec_progress() == (Progress {
            steps: setup_steps(options, interfaces@, multicast_address),
            done: 0,
        }),
        setup.spec_options() == options,
        setup.spec_interfaces() == interfaces@,
        setup.spec_multicast_address() == multicast_address,
        setup.spec_abi() == abi,
{
    let mut steps: Vec<SetupStep> = Vec::new();
    steps.push(SetupStep::CreateSocket);
    steps.push(SetupStep::SetReadTimeout(options.read_timeout));
    steps.push(SetupStep::SetMulticastLoop(options.loopback));
    steps.push(SetupStep::SetReuseAddress);
    steps.push(SetupStep::EnablePacketInfo);
    steps.push(SetupStep::LocateReceiveExtension);
    steps.push(SetupStep::LocateSendExtension);
    let ghost before = steps@;
    let mut i: usize = 0;
    while i < interfaces.len()
        invariant
            i <= interfaces@.len(),
            steps@ == before + join_steps(multicast_address.ip, interfaces@.subrange(0, i as int)),
        decreases interfaces@.len() - i,
    {
        steps.push(
            SetupStep::JoinMulticast { group: multicast_address.ip, interface: interfaces[i] },
        );
        i = i + 1;
    }
    assert(interfaces@.subrange(0, i as int) == interfaces@);
    steps.push(
        SetupStep::Bind { address: Ipv4Address::unspecified(), port: multicast_address.port },
    );
    assert(steps@ == setup_steps(options, interfaces@, multicast_address));
    Setup { plan: Plan::new(steps), options, interfaces, multicast_address, abi }
}

impl MulticastSocket {
    /// Starts the construction of a socket with the default options, on the
    /// interfaces that [`all_ipv4_interfaces`] picks from `entries`.
    pub fn all_interfaces(
        multicast_address: SocketAddressV4,
        entries: &Vec<NetworkInterface>,
        abi: Abi,
    ) -> (setup: Setup)
        ensures
            setup.spec_interfaces() == selection(entries@, entries@.len()),
            setup.spec_multicast_address() == multicast_address,
            setup.spec_abi() == abi,
            setup.spec_options().loopback,
            setup.spec_options().buffer_size == 512,
            setup.spec_options().read_timeout.spec_secs() == 1,
            setup.spec_options().read_timeout.spec_subsec_nanos() == 0,
            setup.spec_progress() == (Progress {
                steps: setup_steps(
                    setup.spec_options(),
                    selection(entries@, entries@.len()),
                    multicast_address,
                ),
                done: 0,
            }),
    {
        let interfaces = all_ipv4_interfaces(entries);
        create_on_interfaces(MulticastOptions::default(), interfaces, multicast_address, abi)
    }

    /// Starts the construction of a socket for the group `multicast_address`
    /// that joins the group on each of `interfaces`.
    pub fn with_options(
        multicast_address: SocketAddressV4,
        interfaces: Vec<Ipv4Address>,
        options: MulticastOptions,
        abi: Abi,
    ) -> (setup: Setup)
        ensures
            setup.spec_progress() == (Progress {
                steps: setup_steps(options, interfaces@, multicast_address),
                done: 0,
            }),
            setup.spec_options() == options,
            setup.spec_interfaces() == interfaces@,
            setup.spec_multicast_address() == multicast_address,
            setup.spec_abi() == abi,
    {
        create_on_interfaces(options, interfaces, multicast_address, abi)
    }
}

/// Picks the addresses to join from the system's list of interfaces: the
/// IPv4 addresses that are not loopback addresses, one for each interface.
pub fn all_ipv4_interfaces(entries: &Vec<NetworkInterface>) -> (addresses: Vec<Ipv4Address>)
    ensures
        addresses@ == selection(entries@, entries@.len()),
{
    select_ipv4_interfaces(entries)
}

/// One of the two entry points that are looked up while a socket is made.
#[derive(Clone, Copy, Debug, PartialEq, Eq, Structural)]
pub enum Extension {
    /// Receive with ancillary data.
    WsaRecvMsg,
    /// Send with ancillary data.
    WsaSendMsg,
}

/// What the lookup of an entry point returned.
#[derive(Clone, Copy, Debug, PartialEq, Eq, Structural)]
pub struct ExtensionReply {
    /// The status of the call: zero for success.
    pub status: i32,
    /// The number of bytes that the call wrote.
    pub byte_len: u32,
    /// The entry point that the call wrote, as an integer.
    pub pointer: usize,
}

/// Why the lookup of an entry point failed.
#[derive(Clone, Copy, Debug, PartialEq, Eq, Structural)]
pub enum LookupError {
    /// The call itself failed, with this status.
    Os(i32),
    /// The call wrote another number of bytes than a pointer has.
    UnexpectedLength(Extension),
    /// The call wrote a null pointer.
    NotFound(Extension),
}

/// What a lookup comes to: the entry point, where the call succeeded, wrote
/// as many bytes as a pointer has, and the pointer is not null; else the
/// first of these three that does not hold.
pub open spec fn located(abi: Abi, extension: Extension, reply: ExtensionReply) -> Result<
    usize,
    LookupError,
> {
    if reply.status != 0 {
        Err(LookupError::Os(reply.status))
    } else if reply.byte_len != abi.spec_word_len() {
        Err(LookupError::UnexpectedLength(extension))
    } else if reply.pointer == 0 {
        Err(LookupError::NotFound(extension))
    } else {
        Ok(reply.pointer)
    }
}

/// Judges the reply to the lookup of `extension`.
pub fn locate_extension(abi: Abi, extension: Extension, reply: &ExtensionReply) -> (entry: Result<
    usize,
    LookupError,
>)
    ensures
        entry == located(abi, extension, *reply),
{
    if reply.status != 0 {
        return Err(LookupError::Os(reply.status));
    }
    if abi.word_len() != reply.byte_len as usize {
        return Err(LookupError::UnexpectedLength(extension));
    }
    if reply.pointer == 0 {
        Err(LookupError::NotFound(extension))
    } else {
        Ok(reply.pointer)
    }
}

/// Judges the reply to the lookup of the entry point that receives with
/// ancillary data.
pub fn locate_wsarecvmsg(abi: Abi, reply: &ExtensionReply) -> (entry: Result<usize, LookupError>)
    ensures
        entry == located(abi, Extension::WsaRecvMsg, *reply),
{
    locate_extension(abi, Extension::WsaRecvMsg, reply)
}

/// Judges the reply to the lookup of the entry point that sends with
/// ancillary data.
pub fn locate_wsasendmsg(abi: Abi, reply: &ExtensionReply) -> (entry: Result<usize, LookupError>)
    ensures
        entry == located(abi, Extension::WsaSendMsg, *reply),
{
    locate_extension(abi, Extension::WsaSendMsg, reply)
}

/// A construction ends well only after every call was made and succeeded,
/// the join on each listed interface among them; and where a call fails,
/// the construction ends in that call's error, with no call made after it.
pub proof fn lemma_construction_is_all_or_nothing<E>(
    options: MulticastOptions,
    interfaces: Seq<Ipv4Address>,
    multicast_address: SocketAddressV4,
    outcomes: Seq<Result<(), E>>,
)
    ensures
        ({
            let steps = setup_steps(options, interfaces, multicast_address);
            let report = (Progress { steps, done: 0 }).run(outcomes);
            &&& steps.len() == interfaces.len() + 8
            &&& forall|i: int|
                0 <= i < interfaces.len() ==> #[trigger] steps[STEPS_BEFORE_JOIN + i]
                    == (SetupStep::JoinMulticast {
                    group: multicast_address.ip,
                    interface: interfaces[i],
                })
            &&& report.result == Some(Ok::<(), E>(())) ==> {
                &&& report.attempted == steps
                &&& outcomes.len() >= steps.len()
                &&& forall|k: int| 0 <= k < steps.len() ==> outcomes[k] is Ok
            }
            &&& forall|failed: int|
                0 <= failed < steps.len() && failed < outcomes.len()
                    && #[trigger] outcomes[failed] is Err && (forall|k: int|
                    0 <= k < failed ==> outcomes[k] is Ok) ==> {
                    &&& report.result == Some(Err::<(), E>(outcomes[failed]->Err_0))
                    &&& report.attempted == steps.subrange(0, failed + 1)
                }
        }),
{
    let steps = setup_steps(options, interfaces, multicast_address);
    let start = Progress { steps, done: 0 };
    let report = start.run(outcomes);
    if report.result == Some(Ok::<(), E>(())) {
        lemma_run_ends_well_only_after_every_step(start, outcomes);
        assert(steps.subrange(0, steps.len() as int) == steps);
    }
    assert forall|failed: int|
        0 <= failed < steps.len() && failed < outcomes.len() && #[trigger] outcomes[failed] is Err
            && (forall|k: int| 0 <= k < failed ==> outcomes[k] is Ok) implies {
        &&& report.result == Some(Err::<(), E>(outcomes[failed]->Err_0))
        &&& report.attempted == steps.subrange(0, failed + 1)
    } by {
        lemma_run_stops_at_first_failure(start, outcomes, failed as nat);
    }
}

/// An index is never taken for the default. An index that the socket does
/// not know selects nothing at all, so that the send is refused; one that it
/// knows is attached with its address, which the empty data of the default
/// never is.
pub proof fn lemma_index_is_never_default(socket: MulticastSocket, index: u32)
    ensures
        socket.control_for(Interface::Index(index)) != socket.control_for(Interface::Default),
        !socket.spec_interfaces().contains_key(index) ==> socket.control_for(
            Interface::Index(index),
        ) is None,
        socket.spec_interfaces().contains_key(index) ==> arrival_interface(
            socket.spec_abi(),
            socket.control_for(Interface::Index(index))->Some_0,
        ) == Interface::Index(index),
{
    if socket.spec_interfaces().contains_key(index) {
        lemma_packet_info_round_trip(
            socket.spec_abi(),
            PacketInfo { address: socket.spec_interfaces()[index], index },
        );
    }
}

/// A broadcast over the interfaces of a socket attempts one send for each
/// interface where all succeed, and where one fails, that one is the last:
/// the attempts number one more than the sends that succeeded before it.
pub proof fn lemma_broadcast_stops_at_first_failure<E>(
    socket: MulticastSocket,
    payload: Seq<u8>,
    targets: Seq<Ipv4Address>,
    steps: Seq<Datagram>,
    outcomes: Seq<Result<usize, E>>,
)
    requires
        socket.broadcasts(payload, targets, steps),
    ensures
        ({
            let report = (Progress { steps, done: 0 }).run(outcomes);
            let count = socket.spec_interfaces().dom().len();
            &&& outcomes.len() >= count && (forall|k: int| 0 <= k < count ==> outcomes[k] is Ok)
                ==> {
                &&& report.attempted == steps
                &&& report.attempted.len() == count
                &&& report.result == Some(Ok::<(), E>(()))
            }
            &&& forall|failed: int|
                0 <= failed < count && failed < outcomes.len() && #[trigger] outcomes[failed] is Err
                    && (forall|k: int| 0 <= k < failed ==> outcomes[k] is Ok) ==> {
                    &&& report.attempted == steps.subrange(0, failed + 1)
                    &&& report.attempted.len() == failed + 1
                    &&& report.result == Some(Err::<(), E>(outcomes[failed]->Err_0))
                }
        }),
{
    let start = Progress { steps, done: 0 };
    let report = start.run(outcomes);
    let count = socket.spec_interfaces().dom().len();
    if outcomes.len() >= count && (forall|k: int| 0 <= k < count ==> outcomes[k] is Ok) {
        lemma_run_all_succeed(start, outcomes);
        assert(steps.subrange(0, steps.len() as int) == steps);
    }
    assert forall|failed: int|
        0 <= failed < count && failed < outcomes.len() && #[trigger] outcomes[failed] is Err && (
        forall|k: int| 0 <= k < failed ==> outcomes[k] is Ok) implies {
        &&& report.attempted == steps.subrange(0, failed + 1)
        &&& report.attempted.len() == failed + 1
        &&& report.result == Some(Err::<(), E>(outcomes[failed]->Err_0))
    } by {
        lemma_run_stops_at_first_failure(start, outcomes, failed as nat);
    }
}

} // verus!
