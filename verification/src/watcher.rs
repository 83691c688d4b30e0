//! The decisions of the event watcher: which notification of the kernel
//! calls for a new snapshot.
//!
//! Only the notice of an added address that the last published snapshot
//! already holds is passed over. Every other notification triggers a full
//! rebuild.

use crate::kernel::{message_addrs, AddressAttr, AddressMessage};
use crate::snapshot::{IfaceIpAddr, Snapshot};
use vstd::prelude::*;

verus! {

/// The notification group of link changes.
pub const RTNLGRP_LINK: u32 = 0x1;

/// The notification group of IPv4 address changes.
pub const RTNLGRP_IPV4_IFADDR: u32 = 0x10;

/// The notification group of IPv6 address changes.
pub const RTNLGRP_IPV6_IFADDR: u32 = 0x100;

/// The groups that the watcher subscribes to: link changes and the address
/// changes of both families.
pub const SUBSCRIBED_GROUPS: u32 = 0x111;

/// A notification of the kernel, as far as the watcher tells them apart.
#[derive(Clone, Copy, Debug, PartialEq, Eq, Structural)]
pub enum KernelEvent {
    /// A link went up, down, or changed otherwise.
    LinkChanged,
    /// The address was added to an interface.
    AddressAdded(IfaceIpAddr),
    /// An address was removed from an interface.
    AddressRemoved,
    /// Any other message.
    Other,
}

/// What the watcher does on a notification.
#[derive(Clone, Copy, Debug, PartialEq, Eq, Structural)]
pub enum WatcherAction {
    /// Nothing: the state is known already.
    Suppress,
    /// Build a new snapshot and publish it.
    Rebuild,
}

/// The action that a notification calls for, given the snapshot that was
/// published last.
pub open spec fn spec_watcher_action(event: KernelEvent, last_published: Snapshot) -> WatcherAction {
    match event {
        KernelEvent::AddressAdded(key) => if last_published.as_map().contains_key(key) {
            WatcherAction::Suppress
        } else {
            WatcherAction::Rebuild
        },
        _ => WatcherAction::Rebuild,
    }
}

/// The events that one message about a new address stands for: one for each
/// address among its attributes, in their order, with the prefix length of
/// the message.
pub open spec fn spec_new_address_events(msg: AddressMessage) -> Seq<KernelEvent> {
    Seq::new(
        message_addrs(msg.attributes@, msg.header).len(),
        |i: int|
            KernelEvent::AddressAdded(
                IfaceIpAddr {
                    addr: message_addrs(msg.attributes@, msg.header)[i].0,
                    prefix_len: msg.header.prefix_len,
                },
            ),
    )
}

/// Decides what to do on a notification.
pub fn watcher_action(event: &KernelEvent, last_published: &Snapshot) -> (action: WatcherAction)
    ensures
        action == spec_watcher_action(*event, *last_published),
        action is Suppress <==> (*event matches KernelEvent::AddressAdded(key)
            && last_published.as_map().contains_key(key)),
{
    match event {
        KernelEvent::AddressAdded(received_ifaceaddr) => {
            if last_published.contains_key(received_ifaceaddr) {
                WatcherAction::Suppress
            } else {
                WatcherAction::Rebuild
            }
        },
        _ => WatcherAction::Rebuild,
    }
}

/// The events of one message about a new address.
pub fn new_address_events(msg: &AddressMessage) -> (events: Vec<KernelEvent>)
    ensures
        events@ == spec_new_address_events(*msg),
{
    let mut events: Vec<KernelEvent> = Vec::new();
    let mut i: usize = 0;
    assert(msg.attributes@.subrange(0, 0) =~= Seq::<AddressAttr>::empty());
    while i < msg.attributes.len()
        invariant
            i <= msg.attributes@.len(),
            events@.len() == message_addrs(msg.attributes@.subrange(0, i as int), msg.header).len(),
            forall|j: int|
                0 <= j < events@.len() ==> #[trigger] events@[j] == KernelEvent::AddressAdded(
                    IfaceIpAddr {
                        addr: message_addrs(
                            msg.attributes@.subrange(0, i as int),
                            msg.header,
                        )[j].0,
                        prefix_len: msg.header.prefix_len,
                    },
                ),
        decreases msg.attributes.len() - i,
    {
        proof {
            let upto = msg.attributes@.subrange(0, i + 1);
            assert(upto.drop_last() =~= msg.attributes@.subrange(0, i as int));
            assert(upto.last() == msg.attributes@[i as int]);
        }
        match msg.attributes[i] {
            AddressAttr::Address(addr) => {
                events.push(
                    KernelEvent::AddressAdded(
                        IfaceIpAddr { addr, prefix_len: msg.header.prefix_len },
                    ),
                );
            },
            AddressAttr::Other => {},
        }
        i += 1;
    }
    assert(msg.attributes@.subrange(0, i as int) =~= msg.attributes@);
    assert(events@ =~= spec_new_address_events(*msg));
    events
}

/// The subscription is the three groups together.
pub proof fn lemma_subscribed_groups()
    ensures
        SUBSCRIBED_GROUPS == RTNLGRP_LINK | RTNLGRP_IPV4_IFADDR | RTNLGRP_IPV6_IFADDR,
{
    assert(0x111u32 == 0x1u32 | 0x10u32 | 0x100u32) by (bit_vector);
}

/// Every notification but that of an added address triggers a rebuild,
/// whatever the last snapshot holds.
pub proof fn lemma_other_events_rebuild(event: KernelEvent, last_published: Snapshot)
    requires
        !(event is AddressAdded),
    ensures
        spec_watcher_action(event, last_published) == WatcherAction::Rebuild,
{
}

} // verus!
