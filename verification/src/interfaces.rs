//! Which of the machine's interfaces a socket joins when the caller names
//! none.

use crate::addr::Ipv4Address;
use vstd::prelude::*;

verus! {

/// One address of one network interface, as the system lists it. An
/// interface with several addresses is listed once for each.
#[derive(Clone, Debug, PartialEq, Eq)]
pub struct NetworkInterface {
    /// The name of the interface.
    pub name: String,
    /// The address, where it is an IPv4 address.
    pub address: Option<Ipv4Address>,
    /// Whether this is a loopback address.
    pub loopback: bool,
}

/// Whether an entry can be joined at all: it has an IPv4 address, and not a
/// loopback one.
pub open spec fn eligible(entry: NetworkInterface) -> bool {
    entry.address is Some && !entry.loopback
}

/// Whether the entry at `index` is the one that stands for its interface:
/// it is eligible, and no eligible entry before it has the same name.
pub open spec fn selected(entries: Seq<NetworkInterface>, index: int) -> bool {
    &&& eligible(entries[index])
    &&& forall|earlier: int|
        0 <= earlier < index && #[trigger] entries[earlier].name@ == entries[index].name@
            ==> !eligible(entries[earlier])
}

/// The addresses of the selected entries among the first `count`, in the
/// order of the list.
pub open spec fn selection(entries: Seq<NetworkInterface>, count: nat) -> Seq<Ipv4Address>
    decreases count,
{
    if count == 0 {
        Seq::empty()
    } else {
        let before = selection(entries, (count - 1) as nat);
        if selected(entries, count - 1) {
            before.push(entries[count - 1].address->Some_0)
        } else {
            before
        }
    }
}

/// Whether an entry can be joined at all.
pub fn is_eligible(entry: &NetworkInterface) -> (eligible: bool)
    ensures
        eligible == self::eligible(*entry),
{
    entry.address.is_some() && !entry.loopback
}

/// Whether the entry at `index` is the one that stands for its interface.
fn is_selected(entries: &Vec<NetworkInterface>, index: usize) -> (chosen: bool)
    requires
        index < entries@.len(),
    ensures
        chosen == selected(entries@, index as int),
{
    if !is_eligible(&entries[index]) {
        return false;
    }
    let mut earlier: usize = 0;
    while earlier < index
        invariant
            earlier <= index < entries@.len(),
            forall|j: int|
                0 <= j < earlier && #[trigger] entries@[j].name@ == entries@[index as int].name@
                    ==> !eligible(entries@[j]),
        decreases index - earlier,
    {
        if entries[earlier].name == entries[index].name && is_eligible(&entries[earlier]) {
            return false;
        }
        earlier = earlier + 1;
    }
    true
}

/// Picks the addresses to join from the system's list of interfaces: the
/// IPv4 addresses that are not loopback addresses, and of an interface with
/// several of them only the first, so that no interface is joined twice.
pub fn select_ipv4_interfaces(entries: &Vec<NetworkInterface>) -> (addresses: Vec<Ipv4Address>)
    ensures
        addresses@ == selection(entries@, entries@.len()),
{
    let mut addresses: Vec<Ipv4Address> = Vec::new();
    let mut i: usize = 0;
    while i < entries.len()
        invariant
            i <= entries@.len(),
            addresses@ == selection(entries@, i as nat),
        decreases entries@.len() - i,
    {
        if is_selected(entries, i) {
            match entries[i].address {
                Some(address) => {
                    addresses.push(address);
                },
                None => {},
            }
        }
        i = i + 1;
    }
    addresses
}

/// No interface is joined twice: two selected entries never share a name.
pub proof fn lemma_one_address_per_interface(
    entries: Seq<NetworkInterface>,
    first: int,
    second: int,
)
    requires
        0 <= first < second < entries.len(),
        selected(entries, first),
        selected(entries, second),
    ensures
        entries[first].name@ != entries[second].name@,
{
}

/// No interface is left out: for every eligible entry, a selected entry with
/// the same name stands at its place or before it.
pub proof fn lemma_every_interface_is_represented(entries: Seq<NetworkInterface>, index: int)
    requires
        0 <= index < entries.len(),
        eligible(entries[index]),
    ensures
        exists|chosen: int|
            0 <= chosen <= index && selected(entries, chosen) && #[trigger] entries[chosen].name@
                == entries[index].name@,
    decreases index,
{
    if selected(entries, index) {
        assert(entries[index].name@ == entries[index].name@);
    } else {
        let earlier = choose|earlier: int|
            0 <= earlier < index && #[trigger] entries[earlier].name@ == entries[index].name@
                && eligible(entries[earlier]);
        lemma_every_interface_is_represented(entries, earlier);
        let chosen = choose|chosen: int|
            0 <= chosen <= earlier && selected(entries, chosen) && #[trigger] entries[chosen].name@
                == entries[earlier].name@;
        assert(entries[chosen].name@ == entries[index].name@);
    }
}

} // verus!
