//! What is handed to the operating system for one send, and what it hands
//! back from one receive.

use crate::addr::SocketAddressV4;
use vstd::prelude::*;

verus! {

/// One datagram, ready to be sent: the payload, where it goes, and the
/// ancillary data that selects the interface it leaves on. An empty `control`
/// attaches nothing, and the routing table decides.
#[derive(Clone, Debug, PartialEq, Eq)]
pub struct Datagram {
    pub payload: Vec<u8>,
    pub destination: SocketAddressV4,
    pub control: Vec<u8>,
}

/// A datagram as a value: what a [`Datagram`] holds.
pub struct Packet {
    pub payload: Seq<u8>,
    pub destination: SocketAddressV4,
    pub control: Seq<u8>,
}

impl View for Datagram {
    type V = Packet;

    open spec fn view(&self) -> Packet {
        Packet {
            payload: self.payload@,
            destination: self.destination,
            control: self.control@,
        }
    }
}

/// What one successful receive call left behind.
#[derive(Clone, Debug, PartialEq, Eq)]
pub struct Receipt {
    /// The data buffer that was handed to the call, whole.
    pub buffer: Vec<u8>,
    /// The number of bytes that the call reports as received.
    pub received: usize,
    /// The sender, where the call reported an IPv4 endpoint.
    pub origin: Option<SocketAddressV4>,
    /// The ancillary buffer that was handed to the call, whole.
    pub control: Vec<u8>,
    /// The number of ancillary bytes that the call reports as filled.
    pub control_len: usize,
}

/// The first `count` items of `bytes`, or all of them where there are fewer.
pub open spec fn prefix(bytes: Seq<u8>, count: nat) -> Seq<u8> {
    if count <= bytes.len() {
        bytes.subrange(0, count as int)
    } else {
        bytes
    }
}

/// Copies the first `count` bytes of `bytes`, or all of them where there are
/// fewer: never more than `count`, and never a byte beyond it.
pub fn take_prefix(bytes: &[u8], count: usize) -> (taken: Vec<u8>)
    ensures
        taken@ == prefix(bytes@, count as nat),
        taken@.len() <= count,
        count <= bytes@.len() ==> taken@.len() == count,
        count >= bytes@.len() ==> taken@ == bytes@,
{
    let end = if count <= bytes.len() {
        count
    } else {
        bytes.len()
    };
    let mut taken: Vec<u8> = Vec::with_capacity(end);
    let mut i: usize = 0;
    while i < end
        invariant
            i <= end <= bytes@.len(),
            taken@ == bytes@.subrange(0, i as int),
        decreases end - i,
    {
        taken.push(bytes[i]);
        i = i + 1;
    }
    assert(bytes@.subrange(0, bytes@.len() as int) == bytes@);
    taken
}

/// What is cut from a buffer is never longer than the count, and is the
/// whole count where the buffer has that much.
pub proof fn lemma_prefix_len(bytes: Seq<u8>, count: nat)
    ensures
        prefix(bytes, count).len() == if count <= bytes.len() {
            count
        } else {
            bytes.len()
        },
        forall|i: int| 0 <= i < prefix(bytes, count).len() ==> prefix(bytes, count)[i] == bytes[i],
{
}

/// A payload that is delivered into a larger buffer is found again whole:
/// whatever the buffer holds behind the payload, cutting it at the payload's
/// length gives back the payload, byte for byte.
pub proof fn lemma_delivered_payload_is_restored(payload: Seq<u8>, behind: Seq<u8>)
    ensures
        prefix(payload + behind, payload.len()) == payload,
{
    assert(prefix(payload + behind, payload.len()) =~= payload);
}

} // verus!
