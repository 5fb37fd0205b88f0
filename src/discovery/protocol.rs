//! The decisions of the multicast discovery protocol: which packets to
//! send, which interfaces to send them on, and what an inbound packet asks of
//! this node. Sockets and JSON stay with the caller.

use super::types::{AnnouncementPacket, Device, DeviceView, DiscoveryError, DiscoveryPacket, SearchPacket};
use super::types::copy_strings;
use vstd::prelude::*;

verus! {

/// The UDP port of the discovery group.
pub const MULTICAST_PORT: u16 = 5354;

/// Seconds between two announcements of a listening node.
pub const ANNOUNCEMENT_INTERVAL_SECS: u64 = 30;

/// Seconds an entry lives without an announcement: three intervals.
pub const CACHE_TTL_SECS: u64 = 90;

/// Seconds between two sweeps of the registry.
pub const CLEANUP_INTERVAL_SECS: u64 = 60;

/// Multicast hop limit of each per-interface send.
pub const MULTICAST_TTL: u32 = 32;

/// The discovery group's IPv4 address, 224.0.0.168.
pub fn multicast_addr() -> (r: [u8; 4])
    ensures
        r@ == seq![224u8, 0u8, 0u8, 168u8],
{
    let r = [224u8, 0u8, 0u8, 168u8];
    assert(r@ =~= seq![224u8, 0u8, 0u8, 168u8]);
    r
}

/// What the node does with one inbound packet.
pub enum PacketAction {
    /// Record this peer in the registry.
    Register(Device),
    /// Answer a search with an announcement of this node.
    Reply,
    /// Drop the packet.
    Ignore,
}

/// A node with port 0 only scans: it never announces itself.
pub open spec fn is_listening(me: DeviceView) -> bool {
    me.port > 0
}

/// Whether this node announces itself (periodically and when searched for).
pub fn is_listening_node(me: &Device) -> (r: bool)
    ensures
        r == is_listening(me@),
{
    me.port > 0
}

/// The announcement that `me` sends.
pub fn announcement_for(me: &Device, version: &str) -> (r: DiscoveryPacket)
    ensures
        (r matches DiscoveryPacket::Announcement(a) && a.device_id@ == me.id@ && a.alias@ == me.name@
            && a.port == me.port && a.instance_id == me.instance_id && a.version@ == version@
            && a.capabilities@.map_values(|s: String| s@) == me@.capabilities),
{
    DiscoveryPacket::Announcement(AnnouncementPacket {
        device_id: me.id.clone(),
        alias: me.name.clone(),
        port: me.port,
        instance_id: me.instance_id,
        version: version.to_owned(),
        capabilities: copy_strings(&me.capabilities),
    })
}

/// A search request for peers of protocol `version`.
pub fn search_for(version: &str) -> (r: DiscoveryPacket)
    ensures
        (r matches DiscoveryPacket::Search(s) && (s.version matches Some(v) && v@ == version@)),
{
    DiscoveryPacket::Search(SearchPacket { version: Some(version.to_owned()) })
}

/// The peer that an announcement received from `sender_ip` describes.
pub open spec fn announced_device(a: AnnouncementPacket, sender_ip: String) -> Device {
    Device {
        id: a.device_id,
        name: a.alias,
        ip: sender_ip,
        port: a.port,
        instance_id: a.instance_id,
        capabilities: a.capabilities,
    }
}

/// Decides what an inbound packet asks of node `me`: another node's
/// announcement is registered, this node's own is dropped, and a search is
/// answered only by a listening node.
pub fn handle_packet(me: &Device, packet: DiscoveryPacket, sender_ip: String) -> (r: PacketAction)
    ensures
        match packet {
            DiscoveryPacket::Announcement(a) => if a.device_id@ == me.id@ {
                r is Ignore
            } else {
                r == PacketAction::Register(announced_device(a, sender_ip))
            },
            DiscoveryPacket::Search(_) => if is_listening(me@) { r is Reply } else { r is Ignore },
        },
{
    match packet {
        DiscoveryPacket::Announcement(a) => {
            if a.device_id == me.id {
                PacketAction::Ignore
            } else {
                PacketAction::Register(Device {
                    id: a.device_id,
                    name: a.alias,
                    ip: sender_ip,
                    port: a.port,
                    instance_id: a.instance_id,
                    capabilities: a.capabilities,
                })
            }
        },
        DiscoveryPacket::Search(_) => {
            if me.port > 0 {
                PacketAction::Reply
            } else {
                PacketAction::Ignore
            }
        },
    }
}

/// An IPv4 address in 127.0.0.0/8.
pub open spec fn is_loopback(a: [u8; 4]) -> bool {
    a@[0] == 127
}

/// The IPv4 addresses among `addrs` that are not loopback, in order.
pub open spec fn usable(addrs: Seq<Option<[u8; 4]>>) -> Seq<[u8; 4]>
    decreases addrs.len(),
{
    if addrs.len() == 0 {
        Seq::empty()
    } else {
        let k = usable(addrs.drop_last());
        match addrs.last() {
            Some(a) => if is_loopback(a) { k } else { k.push(a) },
            None => k,
        }
    }
}

/// The interfaces to join the group on and to send from: every IPv4 address
/// that is not loopback (`None` stands for an address of another family).
pub fn select_interfaces(addrs: &Vec<Option<[u8; 4]>>) -> (r: Vec<[u8; 4]>)
    ensures
        r@ == usable(addrs@),
{
    let mut out: Vec<[u8; 4]> = Vec::new();
    let mut i: usize = 0;
    while i < addrs.len()
        invariant
            i <= addrs@.len(),
            out@ == usable(addrs@.subrange(0, i as int)),
        decreases addrs@.len() - i,
    {
        assert(addrs@.subrange(0, i + 1).drop_last() == addrs@.subrange(0, i as int));
        match addrs[i] {
            Some(a) => {
                if a[0] != 127 {
                    out.push(a);
                }
            },
            None => {},
        }
        i = i + 1;
    }
    assert(addrs@.subrange(0, addrs@.len() as int) == addrs@);
    out
}

/// The outcome of joining the group: construction fails when the interfaces
/// could not be listed or no join succeeded, and otherwise reports how many did.
pub fn join_outcome(listed: bool, joined: usize) -> (r: Result<usize, DiscoveryError>)
    ensures
        r is Ok <==> listed && joined > 0,
        r matches Ok(n) ==> n == joined,
        !listed ==> (r matches Err(DiscoveryError::Io(m)) && m@ == "Failed to list network interfaces"@),
        listed && joined == 0 ==> (r matches Err(DiscoveryError::Io(m))
            && m@ == "No valid network interfaces found for multicast"@),
{
    if !listed {
        Err(DiscoveryError::Io("Failed to list network interfaces".to_owned()))
    } else if joined == 0 {
        Err(DiscoveryError::Io("No valid network interfaces found for multicast".to_owned()))
    } else {
        Ok(joined)
    }
}

} // verus!
