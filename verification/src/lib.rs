//! Interface-aware IPv4 multicast datagrams: the decisions of a multicast
//! socket, verified.
//!
//! The crate holds everything such a socket decides or computes: which
//! interfaces to join, the order of the construction steps, the bytes of the
//! ancillary packet-info record that selects an egress interface or reports
//! the arrival interface, how a received buffer becomes a message, and when a
//! broadcast stops. The operating-system calls themselves are made by the
//! caller, which hands their results to this crate as plain values.

use vstd::prelude::*;

pub mod addr;
pub mod cmsg;
pub mod datagram;
pub mod interfaces;
pub mod plan;
pub mod unix;
pub mod win;
pub mod wire;

use crate::addr::Ipv4Address;

verus! {

/// A span of time: whole seconds and a fraction of a second in nanoseconds.
#[derive(Clone, Copy, Debug, PartialEq, Eq, Structural)]
pub struct Timeout {
    secs: u64,
    nanos: u32,
}

impl Timeout {
    #[verifier::type_invariant]
    spec fn well_formed(self) -> bool {
        self.nanos < 1_000_000_000
    }

    /// The whole seconds of the span.
    pub closed spec fn spec_secs(self) -> u64 {
        self.secs
    }

    /// The rest of the span in nanoseconds, less than a second.
    pub closed spec fn spec_subsec_nanos(self) -> u32 {
        self.nanos
    }

    /// The whole span in nanoseconds.
    pub open spec fn spec_nanos(self) -> nat {
        (self.spec_secs() * 1_000_000_000 + self.spec_subsec_nanos()) as nat
    }

    /// A span of `secs` seconds and `nanos` nanoseconds, where `nanos` is
    /// less than a second; nothing where it is not.
    pub fn new(secs: u64, nanos: u32) -> (timeout: Option<Timeout>)
        ensures
            match timeout {
                Some(timeout) => {
                    &&& nanos < 1_000_000_000
                    &&& timeout.spec_secs() == secs
                    &&& timeout.spec_subsec_nanos() == nanos
                },
                None => nanos >= 1_000_000_000,
            },
    {
        if nanos < 1_000_000_000 {
            Some(Timeout { secs, nanos })
        } else {
            None
        }
    }

    /// A span of `secs` seconds.
    pub fn from_secs(secs: u64) -> (timeout: Timeout)
        ensures
            timeout.spec_secs() == secs,
            timeout.spec_subsec_nanos() == 0,
    {
        Timeout { secs, nanos: 0 }
    }

    /// A span of `millis` milliseconds.
    pub fn from_millis(millis: u64) -> (timeout: Timeout)
        ensures
            timeout.spec_nanos() == millis * 1_000_000,
            timeout.spec_secs() == millis / 1000,
            timeout.spec_subsec_nanos() == (millis % 1000) * 1_000_000,
    {
        let rest: u32 = (millis % 1000) as u32;
        Timeout { secs: millis / 1000, nanos: rest * 1_000_000 }
    }

    /// The whole seconds of the span.
    pub fn as_secs(&self) -> (secs: u64)
        ensures
            secs == self.spec_secs(),
    {
        self.secs
    }

    /// The rest of the span in nanoseconds: always less than a second.
    pub fn subsec_nanos(&self) -> (nanos: u32)
        ensures
            nanos == self.spec_subsec_nanos(),
            nanos < 1_000_000_000,
    {
        proof {
            use_type_invariant(self);
        }
        self.nanos
    }

    /// Whether the span is empty.
    pub fn is_zero(&self) -> (zero: bool)
        ensures
            zero == (self.spec_nanos() == 0),
    {
        self.secs == 0 && self.nanos == 0
    }
}

/// What a caller may choose when a socket is made.
#[derive(Clone, Copy, Debug, PartialEq, Eq, Structural)]
pub struct MulticastOptions {
    /// How long a receive waits for a datagram before it gives up.
    pub read_timeout: Timeout,
    /// Whether the host receives the datagrams that it sends to the group.
    pub loopback: bool,
    /// The size of the receive buffer in bytes. A datagram longer than this
    /// does not arrive whole.
    pub buffer_size: usize,
    /// The local address to bind the socket to.
    ///
    /// Usually this is `0.0.0.0`, so that datagrams are heard on every
    /// interface. Where the system forbids binding a multicast socket to
    /// anything else, this is not used.
    pub bind_address: Ipv4Address,
}

impl Default for MulticastOptions {
    /// A read timeout of one second, loopback on, a buffer of 512 bytes, and
    /// `0.0.0.0` to bind to.
    fn default() -> (options: MulticastOptions)
        ensures
            options.read_timeout.spec_secs() == 1,
            options.read_timeout.spec_subsec_nanos() == 0,
            options.loopback,
            options.buffer_size == 512,
            options.bind_address == Ipv4Address::spec_unspecified(),
    {
        MulticastOptions {
            read_timeout: Timeout::from_secs(1),
            loopback: true,
            buffer_size: 512,
            bind_address: Ipv4Address::unspecified(),
        }
    }
}

} // verus!
