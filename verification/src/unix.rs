//! The Unix variant: the control-message layout of Linux, where an interface
//! index is handed to the system as it is.

use crate::addr::{Ipv4Address, SocketAddressV4};
use crate::cmsg::lemma_header_round_trip;
use crate::cmsg::{get_header, header_at, header_bytes, header_len, put_header, spec_header_len};
use crate::datagram::{prefix, take_prefix, Datagram, Packet, Receipt};
use crate::interfaces::{select_ipv4_interfaces, selection, NetworkInterface};
use crate::plan::lemma_run_stops_at_first_failure;
use crate::plan::{lemma_run_all_succeed, lemma_run_ends_well_only_after_every_step};
use crate::plan::{Plan, Progress};
use crate::wire::{bits_i32, get_i32, i32_bits, put_i32, u32_bytes, u32_value, Abi, PointerWidth};
use crate::wire::{lemma_i32_round_trip, lemma_u32_round_trip};
use crate::{MulticastOptions, Timeout};
use vstd::prelude::*;

verus! {

/// The protocol level of IPv4 ancillary records.
pub const IPPROTO_IP: i32 = 0;

/// The record type of a packet-info record among the IPv4 ones.
pub const IP_PKTINFO: i32 = 8;

/// The number of bytes of a packet-info payload: an index and two addresses.
pub const PKTINFO_DATA_SIZE: usize = 12;

/// The payload of a packet-info record.
#[derive(Clone, Copy, Debug, PartialEq, Eq, Structural)]
pub struct PacketInfo {
    /// The index of the interface: the one a datagram arrived on, or the one
    /// it is to leave on. Zero names none.
    pub index: i32,
    /// The local address: the source to send from, which also selects the
    /// interface that has it. `0.0.0.0` names none.
    pub spec_dst: Ipv4Address,
    /// The destination address in the header of a received datagram.
    pub addr: Ipv4Address,
}

/// `len` rounded up to the next multiple of the pointer width, as every
/// record in a control buffer is.
pub open spec fn spec_aligned(abi: Abi, len: nat) -> nat {
    let word = abi.spec_word_len();
    if len % word == 0 {
        len
    } else {
        (len + word - len % word) as nat
    }
}

/// The number of bytes that one packet-info record announces: the header and
/// the payload.
pub open spec fn spec_pktinfo_record_len(abi: Abi) -> nat {
    spec_header_len(abi) + 12
}

/// The number of bytes that one packet-info record takes in a control
/// buffer: the header and the payload, padded to the pointer width.
pub open spec fn spec_control_space(abi: Abi) -> nat {
    spec_header_len(abi) + spec_aligned(abi, 12)
}

/// The bytes of a packet-info payload.
pub open spec fn payload_bytes(abi: Abi, info: PacketInfo) -> Seq<u8> {
    u32_bytes(abi.byte_order, i32_bits(info.index)) + info.spec_dst.spec_octets()
        + info.addr.spec_octets()
}

/// The packet-info payload that starts at offset `at` of `bytes`.
pub open spec fn payload_at(abi: Abi, bytes: Seq<u8>, at: int) -> PacketInfo {
    PacketInfo {
        index: bits_i32(u32_value(abi.byte_order, bytes.subrange(at, at + 4))),
        spec_dst: Ipv4Address {
            a: bytes[at + 4],
            b: bytes[at + 5],
            c: bytes[at + 6],
            d: bytes[at + 7],
        },
        addr: Ipv4Address {
            a: bytes[at + 8],
            b: bytes[at + 9],
            c: bytes[at + 10],
            d: bytes[at + 11],
        },
    }
}

/// The bytes of a control buffer that holds the one record `info`.
///
/// | offset  | bytes | field                                      |
/// |---------|-------|--------------------------------------------|
/// | 0       | 4 / 8 | length of the record, without the padding  |
/// | 4 / 8   | 4     | level, [`IPPROTO_IP`]                      |
/// | 8 / 12  | 4     | type, [`IP_PKTINFO`]                       |
/// | 12 / 16 | 4     | interface index                            |
/// | 16 / 20 | 4     | local address, in network order            |
/// | 20 / 24 | 4     | destination address, in network order      |
/// | 24 / 28 | 0 / 4 | padding, zero                              |
pub open spec fn packet_info_bytes(abi: Abi, info: PacketInfo) -> Seq<u8> {
    header_bytes(abi, spec_pktinfo_record_len(abi) as u32, IPPROTO_IP, IP_PKTINFO) + payload_bytes(
        abi,
        info,
    ) + Seq::new((spec_aligned(abi, 12) - 12) as nat, |i: int| 0u8)
}

/// The payload of the last packet-info record among the records that start
/// at offset `at` of `control`, and `found` where there is none.
///
/// The records follow one another, each padded to the pointer width. A
/// record is read only where all of it lies within `control`; the walk ends
/// at the first header that does not, or that announces less than itself.
pub open spec fn last_packet_info(
    abi: Abi,
    control: Seq<u8>,
    at: int,
    found: Option<PacketInfo>,
) -> Option<PacketInfo>
    decreases control.len() + 8 - at,
{
    match header_at(abi, control, at) {
        None => found,
        Some(header) => if header.len < spec_header_len(abi) || at + header.len > control.len() {
            found
        } else {
            let found = if header.level == IPPROTO_IP && header.kind == IP_PKTINFO && header.len
                >= spec_pktinfo_record_len(abi) {
                Some(payload_at(abi, control, at + spec_header_len(abi)))
            } else {
                found
            };
            last_packet_info(abi, control, at + spec_aligned(abi, header.len as nat), found)
        },
    }
}

/// The packet-info record that `control` holds: the last one, if it holds
/// several.
pub open spec fn packet_info_in(abi: Abi, control: Seq<u8>) -> Option<PacketInfo> {
    last_packet_info(abi, control, 0, None)
}

/// The number of bytes that one packet-info record takes in a control
/// buffer: 24 with 32-bit pointers, 32 with 64-bit ones.
pub fn control_space(abi: Abi) -> (space: usize)
    ensures
        space == spec_control_space(abi),
{
    match abi.pointer_width {
        PointerWidth::Bits32 => 24,
        PointerWidth::Bits64 => 32,
    }
}

/// Lays out the control buffer that carries the one record `info`.
pub fn encode_packet_info(abi: Abi, info: &PacketInfo) -> (control: Vec<u8>)
    ensures
        control@ == packet_info_bytes(abi, *info),
        control@.len() == spec_control_space(abi),
{
    let record_len = header_len(abi) + PKTINFO_DATA_SIZE;
    let mut control: Vec<u8> = Vec::with_capacity(control_space(abi));
    put_header(&mut control, abi, record_len as u32, IPPROTO_IP, IP_PKTINFO);
    put_i32(&mut control, abi.byte_order, info.index);
    let ghost headed = control@;
    control.push(info.spec_dst.a);
    control.push(info.spec_dst.b);
    control.push(info.spec_dst.c);
    control.push(info.spec_dst.d);
    control.push(info.addr.a);
    control.push(info.addr.b);
    control.push(info.addr.c);
    control.push(info.addr.d);
    proof {
        lemma_header_round_trip(abi, record_len as u32, IPPROTO_IP, IP_PKTINFO, Seq::empty());
        lemma_u32_round_trip(abi.byte_order, i32_bits(info.index));
        assert(control@ == headed + info.spec_dst.spec_octets() + info.addr.spec_octets());
    }
    let ghost unpadded = control@;
    match abi.pointer_width {
        PointerWidth::Bits32 => {},
        PointerWidth::Bits64 => {
            control.push(0);
            control.push(0);
            control.push(0);
            control.push(0);
        },
    }
    proof {
        assert(control@ == unpadded + Seq::new(
            (spec_aligned(abi, 12) - 12) as nat,
            |i: int| 0u8,
        ));
        assert(control@ == packet_info_bytes(abi, *info));
    }
    control
}

/// Reads the packet-info payload that starts at offset `at`.
fn get_payload(abi: Abi, control: &[u8], at: usize) -> (info: PacketInfo)
    requires
        at + 12 <= control@.len(),
    ensures
        info == payload_at(abi, control@, at as int),
{
    let end = control.len();
    let index = match get_i32(control, at, abi.byte_order) {
        Some(index) => index,
        None => 0,
    };
    PacketInfo {
        index,
        spec_dst: Ipv4Address {
            a: control[at + 4],
            b: control[at + 5],
            c: control[at + 6],
            d: control[at + 7],
        },
        addr: Ipv4Address {
            a: control[at + 8],
            b: control[at + 9],
            c: control[at + 10],
            d: control[at + 11],
        },
    }
}

/// Walks the records of `control` and reads the last packet-info record
/// among them. Every length is checked against the end of `control` before a
/// byte is read, so that a malformed buffer comes to nothing, not to a fault.
pub fn decode_packet_info(abi: Abi, control: &[u8]) -> (info: Option<PacketInfo>)
    ensures
        info == packet_info_in(abi, control@),
{
    let head = header_len(abi);
    let word = abi.word_len();
    let mut found: Option<PacketInfo> = None;
    let mut at: usize = 0;
    loop
        invariant
            head == spec_header_len(abi),
            word == abi.spec_word_len(),
            at <= control@.len(),
            packet_info_in(abi, control@) == last_packet_info(abi, control@, at as int, found),
        decreases control@.len() - at,
    {
        let header = match get_header(abi, control, at) {
            Some(header) => header,
            None => {
                return found;
            },
        };
        let rest = control.len() - at;
        if header.len < head as u64 || header.len > rest as u64 {
            return found;
        }
        let len = header.len as usize;
        if header.level == IPPROTO_IP && header.kind == IP_PKTINFO && len >= head
            + PKTINFO_DATA_SIZE {
            found = Some(get_payload(abi, control, at + head));
        }
        let over = len % word;
        let padding = if over == 0 {
            0
        } else {
            word - over
        };
        assert(len + padding == spec_aligned(abi, len as nat));
        if padding > rest - len {
            assert(header_at(abi, control@, at + len + padding) is None);
            return found;
        }
        at = at + len + padding;
    }
}

/// A packet-info record is read back as it was laid out.
pub proof fn lemma_packet_info_round_trip(abi: Abi, info: PacketInfo)
    ensures
        packet_info_bytes(abi, info).len() == spec_control_space(abi),
        packet_info_in(abi, packet_info_bytes(abi, info)) == Some(info),
{
    let order = abi.byte_order;
    let head = spec_header_len(abi) as int;
    let len = spec_pktinfo_record_len(abi) as u32;
    let padding = Seq::new((spec_aligned(abi, 12) - 12) as nat, |i: int| 0u8);
    let rest = payload_bytes(abi, info) + padding;
    let control = packet_info_bytes(abi, info);
    lemma_u32_round_trip(order, i32_bits(info.index));
    lemma_i32_round_trip(info.index);
    lemma_header_round_trip(abi, len, IPPROTO_IP, IP_PKTINFO, rest);
    assert(control == header_bytes(abi, len, IPPROTO_IP, IP_PKTINFO) + rest);
    assert(control.subrange(head, head + 4) == u32_bytes(order, i32_bits(info.index)));
    assert(payload_at(abi, control, head) == info);
    assert(spec_aligned(abi, len as nat) == control.len());
    assert(header_at(abi, control, control.len() as int) is None);
    reveal_with_fuel(last_packet_info, 2);
}

/// The interface that a datagram arrived on, or the one it is to leave on.
#[derive(Clone, Copy, Debug, PartialEq, Eq, Structural)]
pub enum Interface {
    /// No interface is named: the system chooses, or did not say.
    Default,
    /// The interface that has this address.
    Ip(Ipv4Address),
    /// The interface that the system knows under this index. An index means
    /// something only on the machine that reported it.
    Index(i32),
}

/// One received datagram.
#[derive(Clone, Debug, PartialEq, Eq)]
pub struct Message {
    /// The payload: as many bytes as were received, no more.
    pub data: Vec<u8>,
    /// The sender, or `0.0.0.0:0` where the sender is not an IPv4 endpoint.
    pub origin_address: SocketAddressV4,
    /// The interface that the datagram arrived on, where the system said so.
    pub interface: Interface,
}

/// The interface that the ancillary data of a received datagram names: the
/// index of its packet-info record, and [`Interface::Default`] where it holds
/// none.
pub open spec fn arrival_interface(abi: Abi, control: Seq<u8>) -> Interface {
    match packet_info_in(abi, control) {
        Some(info) => Interface::Index(info.index),
        None => Interface::Default,
    }
}

/// The ancillary data that selects `interface` for one send. Nothing is
/// attached for the default. An address is attached as the local address to
/// send from, an index as it is: the system is the judge of both.
pub open spec fn control_for(abi: Abi, interface: Interface) -> Seq<u8> {
    match interface {
        Interface::Default => Seq::empty(),
        Interface::Ip(address) => packet_info_bytes(
            abi,
            PacketInfo { index: 0, spec_dst: address, addr: Ipv4Address::spec_unspecified() },
        ),
        Interface::Index(index) => packet_info_bytes(
            abi,
            PacketInfo {
                index,
                spec_dst: Ipv4Address::spec_unspecified(),
                addr: Ipv4Address::spec_unspecified(),
            },
        ),
    }
}

/// A multicast socket, as far as its decisions go: the group it sends to, the
/// interfaces it has joined the group on, and the size of its receive
/// buffer. All three are fixed when the socket is made.
pub struct MulticastSocket {
    interfaces: Vec<Ipv4Address>,
    multicast_address: SocketAddressV4,
    buffer_size: usize,
    abi: Abi,
}

impl MulticastSocket {
    /// The addresses of the interfaces that the socket has joined the group
    /// on.
    pub closed spec fn spec_interfaces(&self) -> Seq<Ipv4Address> {
        self.interfaces@
    }

    /// The multicast group and port.
    pub closed spec fn spec_multicast_address(&self) -> SocketAddressV4 {
        self.multicast_address
    }

    /// The number of bytes of the receive buffer.
    pub closed spec fn spec_buffer_size(&self) -> usize {
        self.buffer_size
    }

    /// The layout parameters of the target.
    pub closed spec fn spec_abi(&self) -> Abi {
        self.abi
    }

    /// The datagram that carries `payload` to the group by way of
    /// `interface`.
    pub open spec fn datagram_for(&self, payload: Seq<u8>, interface: Interface) -> Packet {
        Packet {
            payload,
            destination: self.spec_multicast_address(),
            control: control_for(self.spec_abi(), interface),
        }
    }

    /// The multicast group and port that every datagram is sent to.
    pub fn multicast_address(&self) -> (group: SocketAddressV4)
        ensures
            group == self.spec_multicast_address(),
    {
        self.multicast_address
    }

    /// The number of bytes of the receive buffer.
    pub fn buffer_size(&self) -> (size: usize)
        ensures
            size == self.spec_buffer_size(),
    {
        self.buffer_size
    }

    /// The addresses of the interfaces that the socket has joined the group
    /// on, in the order in which they were given.
    pub fn interfaces(&self) -> (interfaces: &Vec<Ipv4Address>)
        ensures
            interfaces@ == self.spec_interfaces(),
    {
        &self.interfaces
    }

    /// Prepares one datagram for the multicast group, to leave on
    /// `interface`.
    pub fn send(&self, buf: &[u8], interface: &Interface) -> (datagram: Datagram)
        ensures
            datagram@ == self.datagram_for(buf@, *interface),
            datagram.control@.len() == if *interface is Default {
                0
            } else {
                spec_control_space(self.spec_abi())
            },
    {
        let unspecified = Ipv4Address::unspecified();
        let control = match interface {
            Interface::Default => Vec::new(),
            Interface::Ip(address) => encode_packet_info(
                self.abi,
                &PacketInfo { index: 0, spec_dst: *address, addr: unspecified },
            ),
            Interface::Index(index) => encode_packet_info(
                self.abi,
                &PacketInfo { index: *index, spec_dst: unspecified, addr: unspecified },
            ),
        };
        Datagram {
            payload: take_prefix(buf, buf.len()),
            destination: self.multicast_address,
            control,
        }
    }

    /// A receipt to hand to one receive call: a zeroed data buffer of the
    /// configured size, and a zeroed ancillary buffer with room for exactly
    /// one packet-info record.
    pub fn blank_receipt(&self) -> (receipt: Receipt)
        ensures
            receipt.buffer@ == Seq::new(self.spec_buffer_size() as nat, |i: int| 0u8),
            receipt.control@ == Seq::new(spec_control_space(self.spec_abi()), |i: int| 0u8),
            receipt.received == 0,
            receipt.control_len == 0,
            receipt.origin is None,
    {
        let buffer = vec![0u8; self.buffer_size];
        let control = vec![0u8; control_space(self.abi)];
        assert(buffer@ == Seq::new(self.spec_buffer_size() as nat, |i: int| 0u8));
        assert(control@ == Seq::new(spec_control_space(self.spec_abi()), |i: int| 0u8));
        Receipt { buffer, received: 0, origin: None, control, control_len: 0 }
    }

    /// Turns what one receive call left behind into a message.
    ///
    /// The payload is cut to the number of bytes received; the origin is
    /// `0.0.0.0:0` where the call reported no IPv4 endpoint; the interface is
    /// the index of the packet-info record in the filled part of the
    /// ancillary buffer, and the default where that part holds none.
    pub fn receive(&self, receipt: &Receipt) -> (message: Message)
        ensures
            message.data@ == prefix(receipt.buffer@, receipt.received as nat),
            message.data@.len() <= receipt.received,
            message.origin_address == match receipt.origin {
                Some(origin) => origin,
                None => SocketAddressV4::spec_unknown(),
            },
            message.interface == arrival_interface(
                self.spec_abi(),
                prefix(receipt.control@, receipt.control_len as nat),
            ),
    {
        let origin_address = match receipt.origin {
            Some(origin) => origin,
            None => SocketAddressV4::unknown(),
        };
        let filled = take_prefix(receipt.control.as_slice(), receipt.control_len);
        let interface = match decode_packet_info(self.abi, filled.as_slice()) {
            Some(info) => Interface::Index(info.index),
            None => Interface::Default,
        };
        Message {
            data: take_prefix(receipt.buffer.as_slice(), receipt.received),
            origin_address,
            interface,
        }
    }

    /// Whether `steps` send `payload` once by way of each interface of the
    /// socket, selected by its address, in the order of the interfaces.
    pub open spec fn broadcasts(&self, payload: Seq<u8>, steps: Seq<Datagram>) -> bool {
        &&& steps.len() == self.spec_interfaces().len()
        &&& forall|i: int|
            0 <= i < steps.len() ==> (#[trigger] steps[i])@ == self.datagram_for(
                payload,
                Interface::Ip(self.spec_interfaces()[i]),
            )
    }

    /// Plans one send of `buf` by way of every interface of the socket, each
    /// selected by its address.
    ///
    /// The plan stops at the first send that fails, and the interfaces after
    /// it are not tried.
    pub fn broadcast(&self, buf: &[u8]) -> (plan: Plan<Datagram>)
        ensures
            plan@.done == 0,
            self.broadcasts(buf@, plan@.steps),
    {
        let mut steps: Vec<Datagram> = Vec::with_capacity(self.interfaces.len());
        let mut i: usize = 0;
        while i < self.interfaces.len()
            invariant
                i <= self.interfaces@.len(),
                steps@.len() == i,
                forall|j: int|
                    0 <= j < i ==> (#[trigger] steps@[j])@ == self.datagram_for(
                        buf@,
                        Interface::Ip(self.spec_interfaces()[j]),
                    ),
            decreases self.interfaces@.len() - i,
        {
            let datagram = self.send(buf, &Interface::Ip(self.interfaces[i]));
            steps.push(datagram);
            i = i + 1;
        }
        let plan = Plan::new(steps);
        assert(self.broadcasts(buf@, plan@.steps));
        plan
    }
}

/// One call to make while a socket is constructed.
#[derive(Clone, Copy, Debug, PartialEq, Eq, Structural)]
pub enum SetupStep {
    /// Allocate a UDP socket for IPv4.
    CreateSocket,
    /// Set how long a receive waits.
    SetReadTimeout(Timeout),
    /// Set whether the host hears its own multicast datagrams.
    SetMulticastLoop(bool),
    /// Let other sockets on the host share the address.
    SetReuseAddress,
    /// Let other sockets on the host share the port, so that several
    /// listeners can hear the same group.
    SetReusePort,
    /// Ask for a packet-info record with every received datagram.
    EnablePacketInfo,
    /// Join `group` on the interface with the address `interface`.
    JoinMulticast { group: Ipv4Address, interface: Ipv4Address },
    /// Bind the socket to `address` and `port`.
    Bind { address: Ipv4Address, port: u16 },
}

/// The number of steps before the first join.
pub const STEPS_BEFORE_JOIN: usize = 6;

/// One join for each address of `interfaces`, in their order.
pub open spec fn join_steps(group: Ipv4Address, interfaces: Seq<Ipv4Address>) -> Seq<SetupStep> {
    Seq::new(
        interfaces.len(),
        |i: int| SetupStep::JoinMulticast { group, interface: interfaces[i] },
    )
}

/// The calls that construct a socket, in the order in which they are made:
/// the socket and its options, one join for each interface, and last the
/// bind, to the address that the options name and the port of the group.
pub open spec fn setup_steps(
    options: MulticastOptions,
    interfaces: Seq<Ipv4Address>,
    multicast_address: SocketAddressV4,
) -> Seq<SetupStep> {
    seq![
        SetupStep::CreateSocket,
        SetupStep::SetReadTimeout(options.read_timeout),
        SetupStep::SetMulticastLoop(options.loopback),
        SetupStep::SetReuseAddress,
        SetupStep::SetReusePort,
        SetupStep::EnablePacketInfo,
    ] + join_steps(multicast_address.ip, interfaces) + seq![
        SetupStep::Bind { address: options.bind_address, port: multicast_address.port },
    ]
}

/// A socket under construction: the calls still to make, and what the
/// finished socket will hold.
pub struct Setup {
    plan: Plan<SetupStep>,
    options: MulticastOptions,
    interfaces: Vec<Ipv4Address>,
    multicast_address: SocketAddressV4,
    abi: Abi,
}

impl Setup {
    #[verifier::type_invariant]
    spec fn well_formed(self) -> bool {
        &&& self.plan@.steps == setup_steps(self.options, self.interfaces@, self.multicast_address)
        &&& self.plan@.done <= self.plan@.steps.len()
    }

    /// The calls of this construction, and how many of them are made.
    pub closed spec fn spec_progress(&self) -> Progress<SetupStep> {
        self.plan@
    }

    /// The options that the socket is made with.
    pub closed spec fn spec_options(&self) -> MulticastOptions {
        self.options
    }

    /// The addresses of the interfaces to join.
    pub closed spec fn spec_interfaces(&self) -> Seq<Ipv4Address> {
        self.interfaces@
    }

    /// The multicast group and port.
    pub closed spec fn spec_multicast_address(&self) -> SocketAddressV4 {
        self.multicast_address
    }

    /// The layout parameters of the target.
    pub closed spec fn spec_abi(&self) -> Abi {
        self.abi
    }

    /// Whether `next` is this construction with another state of its calls
    /// and nothing else changed.
    pub open spec fn same_socket(&self, next: Setup) -> bool {
        &&& next.spec_options() == self.spec_options()
        &&& next.spec_interfaces() == self.spec_interfaces()
        &&& next.spec_multicast_address() == self.spec_multicast_address()
        &&& next.spec_abi() == self.spec_abi()
    }

    /// The call to make now, or nothing where all are made.
    pub fn next_step(&self) -> (step: Option<SetupStep>)
        ensures
            step == self.spec_progress().pending(),
            self.spec_progress().steps == setup_steps(
                self.spec_options(),
                self.spec_interfaces(),
                self.spec_multicast_address(),
            ),
            self.spec_progress().done <= self.spec_progress().steps.len(),
    {
        proof {
            use_type_invariant(self);
        }
        match self.plan.next() {
            Some(step) => Some(*step),
            None => None,
        }
    }

    /// Takes the outcome of the pending call. After a success the
    /// construction goes on with the next call. After a failure it is over:
    /// what comes back is the error, and no socket can come of it.
    pub fn advance<E>(self, outcome: Result<(), E>) -> (next: Result<Setup, E>)
        ensures
            match next {
                Ok(next) => {
                    &&& self.spec_progress().advance(outcome) == Ok::<Progress<SetupStep>, E>(
                        next.spec_progress(),
                    )
                    &&& self.same_socket(next)
                },
                Err(error) => outcome == Err::<(), E>(error),
            },
    {
        proof {
            use_type_invariant(&self);
        }
        match self.plan.advance(outcome) {
            Ok(plan) => Ok(
                Setup {
                    plan,
                    options: self.options,
                    interfaces: self.interfaces,
                    multicast_address: self.multicast_address,
                    abi: self.abi,
                },
            ),
            Err(error) => Err(error),
        }
    }

    /// Ends the construction. Once every call is made it comes to the
    /// socket; before that it comes to nothing.
    pub fn finish(self) -> (socket: Option<MulticastSocket>)
        ensures
            match socket {
                Some(socket) => {
                    &&& self.spec_progress().pending() is None
                    &&& socket.spec_interfaces() == self.spec_interfaces()
                    &&& socket.spec_multicast_address() == self.spec_multicast_address()
                    &&& socket.spec_buffer_size() == self.spec_options().buffer_size
                    &&& socket.spec_abi() == self.spec_abi()
                },
                None => self.spec_progress().pending() is Some,
            },
    {
        if self.plan.is_complete() {
            Some(
                MulticastSocket {
                    interfaces: self.interfaces,
                    multicast_address: self.multicast_address,
                    buffer_size: self.options.buffer_size,
                    abi: self.abi,
                },
            )
        } else {
            None
        }
    }
}

/// Starts the construction of a socket for the group `multicast_address`
/// that joins the group on each of `interfaces`.
pub fn create_on_interfaces(
    options: MulticastOptions,
    interfaces: Vec<Ipv4Address>,
    multicast_address: SocketAddressV4,
    abi: Abi,
) -> (setup: Setup)
    ensures
        setup.spec_progress() == (Progress {
            steps: setup_steps(options, interfaces@, multicast_address),
            done: 0,
        }),
        setup.spec_options() == options,
        setup.spec_interfaces() == interfaces@,
        setup.spec_multicast_address() == multicast_address,
        setup.spec_abi() == abi,
{
    let mut steps: Vec<SetupStep> = Vec::new();
    steps.push(SetupStep::CreateSocket);
    steps.push(SetupStep::SetReadTimeout(options.read_timeout));
    steps.push(SetupStep::SetMulticastLoop(options.loopback));
    steps.push(SetupStep::SetReuseAddress);
    steps.push(SetupStep::SetReusePort);
    steps.push(SetupStep::EnablePacketInfo);
    let ghost before = steps@;
    let mut i: usize = 0;
    while i < interfaces.len()
        invariant
            i <= interfaces@.len(),
            steps@ == before + join_steps(multicast_address.ip, interfaces@.subrange(0, i as int)),
        decreases interfaces@.len() - i,
    {
        steps.push(
            SetupStep::JoinMulticast { group: multicast_address.ip, interface: interfaces[i] },
        );
        i = i + 1;
    }
    assert(interfaces@.subrange(0, i as int) == interfaces@);
    steps.push(SetupStep::Bind { address: options.bind_address, port: multicast_address.port });
    assert(steps@ == setup_steps(options, interfaces@, multicast_address));
    Setup { plan: Plan::new(steps), options, interfaces, multicast_address, abi }
}

impl MulticastSocket {
    /// Starts the construction of a socket with the default options, on the
    /// interfaces that [`all_ipv4_interfaces`] picks from `entries`.
    pub fn all_interfaces(
        multicast_address: SocketAddressV4,
        entries: &Vec<NetworkInterface>,
        abi: Abi,
    ) -> (setup: Setup)
        ensures
            setup.spec_interfaces() == selection(entries@, entries@.len()),
            setup.spec_multicast_address() == multicast_address,
            setup.spec_abi() == abi,
            setup.spec_options().loopback,
            setup.spec_options().buffer_size == 512,
            setup.spec_options().read_timeout.spec_secs() == 1,
            setup.spec_options().read_timeout.spec_subsec_nanos() == 0,
            setup.spec_options().bind_address == Ipv4Address::spec_unspecified(),
            setup.spec_progress() == (Progress {
                steps: setup_steps(
                    setup.spec_options(),
                    selection(entries@, entries@.len()),
                    multicast_address,
                ),
                done: 0,
            }),
    {
        let interfaces = all_ipv4_interfaces(entries);
        create_on_interfaces(MulticastOptions::default(), interfaces, multicast_address, abi)
    }

    /// Starts the construction of a socket for the group `multicast_address`
    /// that joins the group on each of `interfaces`.
    pub fn with_options(
        multicast_address: SocketAddressV4,
        interfaces: Vec<Ipv4Address>,
        options: MulticastOptions,
        abi: Abi,
    ) -> (setup: Setup)
        ensures
            setup.spec_progress() == (Progress {
                steps: setup_steps(options, interfaces@, multicast_address),
                done: 0,
            }),
            setup.spec_options() == options,
            setup.spec_interfaces() == interfaces@,
            setup.spec_multicast_address() == multicast_address,
            setup.spec_abi() == abi,
    {
        create_on_interfaces(options, interfaces, multicast_address, abi)
    }
}

/// Picks the addresses to join from the system's list of interfaces: the
/// IPv4 addresses that are not loopback addresses, one for each interface.
pub fn all_ipv4_interfaces(entries: &Vec<NetworkInterface>) -> (addresses: Vec<Ipv4Address>)
    ensures
        addresses@ == selection(entries@, entries@.len()),
{
    select_ipv4_interfaces(entries)
}

/// A construction ends well only after every call was made and succeeded,
/// the join on each listed interface among them; and where a call fails,
/// the construction ends in that call's error, with no call made after it.
pub proof fn lemma_construction_is_all_or_nothing<E>(
    options: MulticastOptions,
    interfaces: Seq<Ipv4Address>,
    multicast_address: SocketAddressV4,
    outcomes: Seq<Result<(), E>>,
)
    ensures
        ({
            let steps = setup_steps(options, interfaces, multicast_address);
            let report = (Progress { steps, done: 0 }).run(outcomes);
            &&& steps.len() == interfaces.len() + 7
            &&& forall|i: int|
                0 <= i < interfaces.len() ==> #[trigger] steps[STEPS_BEFORE_JOIN + i]
                    == (SetupStep::JoinMulticast {
                    group: multicast_address.ip,
                    interface: interfaces[i],
                })
            &&& report.result == Some(Ok::<(), E>(())) ==> {
                &&& report.attempted == steps
                &&& outcomes.len() >= steps.len()
                &&& forall|k: int| 0 <= k < steps.len() ==> outcomes[k] is Ok
            }
            &&& forall|failed: int|
                0 <= failed < steps.len() && failed < outcomes.len()
                    && #[trigger] outcomes[failed] is Err && (forall|k: int|
                    0 <= k < failed ==> outcomes[k] is Ok) ==> {
                    &&& report.result == Some(Err::<(), E>(outcomes[failed]->Err_0))
                    &&& report.attempted == steps.subrange(0, failed + 1)
                }
        }),
{
    let steps = setup_steps(options, interfaces, multicast_address);
    let start = Progress { steps, done: 0 };
    let report = start.run(outcomes);
    if report.result == Some(Ok::<(), E>(())) {
        lemma_run_ends_well_only_after_every_step(start, outcomes);
        assert(steps.subrange(0, steps.len() as int) == steps);
    }
    assert forall|failed: int|
        0 <= failed < steps.len() && failed < outcomes.len() && #[trigger] outcomes[failed] is Err
            && (forall|k: int| 0 <= k < failed ==> outcomes[k] is Ok) implies {
        &&& report.result == Some(Err::<(), E>(outcomes[failed]->Err_0))
        &&& report.attempted == steps.subrange(0, failed + 1)
    } by {
        lemma_run_stops_at_first_failure(start, outcomes, failed as nat);
    }
}

/// An index is never taken for the default: whatever the index, the
/// ancillary data that selects it differs from the empty data of the default,
/// and carries that index to the system unchanged.
pub proof fn lemma_index_is_never_default(abi: Abi, index: i32)
    ensures
        control_for(abi, Interface::Index(index)) != control_for(abi, Interface::Default),
        control_for(abi, Interface::Index(index)).len() == spec_control_space(abi),
        arrival_interface(abi, control_for(abi, Interface::Index(index))) == Interface::Index(
            index,
        ),
{
    lemma_packet_info_round_trip(
        abi,
        PacketInfo {
            index,
            spec_dst: Ipv4Address::spec_unspecified(),
            addr: Ipv4Address::spec_unspecified(),
        },
    );
}

/// A broadcast over the interfaces of a socket attempts one send for each
/// interface where all succeed, and where one fails, that one is the last:
/// the attempts number one more than the sends that succeeded before it.
pub proof fn lemma_broadcast_stops_at_first_failure<E>(
    socket: MulticastSocket,
    payload: Seq<u8>,
    steps: Seq<Datagram>,
    outcomes: Seq<Result<usize, E>>,
)
    requires
        socket.broadcasts(payload, steps),
    ensures
        ({
            let report = (Progress { steps, done: 0 }).run(outcomes);
            let count = socket.spec_interfaces().len();
            &&& outcomes.len() >= count && (forall|k: int| 0 <= k < count ==> outcomes[k] is Ok)
                ==> {
                &&& report.attempted == steps
                &&& report.attempted.len() == count
                &&& report.result == Some(Ok::<(), E>(()))
            }
            &&& forall|failed: int|
                0 <= failed < count && failed < outcomes.len() && #[trigger] outcomes[failed] is Err
                    && (forall|k: int| 0 <= k < failed ==> outcomes[k] is Ok) ==> {
                    &&& report.attempted == steps.subrange(0, failed + 1)
                    &&& report.attempted.len() == failed + 1
                    &&& report.result == Some(Err::<(), E>(outcomes[failed]->Err_0))
                }
        }),
{
    let start = Progress { steps, done: 0 };
    let report = start.run(outcomes);
    let count = socket.spec_interfaces().len();
    if outcomes.len() >= count && (forall|k: int| 0 <= k < count ==> outcomes[k] is Ok) {
        lemma_run_all_succeed(start, outcomes);
        assert(steps.subrange(0, steps.len() as int) == steps);
    }
    assert forall|failed: int|
        0 <= failed < count && failed < outcomes.len() && #[trigger] outcomes[failed] is Err && (
        forall|k: int| 0 <= k < failed ==> outcomes[k] is Ok) implies {
        &&& report.attempted == steps.subrange(0, failed + 1)
        &&& report.attempted.len() == failed + 1
        &&& report.result == Some(Err::<(), E>(outcomes[failed]->Err_0))
    } by {
        lemma_run_stops_at_first_failure(start, outcomes, failed as nat);
    }
}

} // verus!
