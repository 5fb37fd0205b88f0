use syncclip::discovery::protocol::{
    announcement_for, handle_packet, join_outcome, multicast_addr, search_for, select_interfaces, PacketAction,
    CACHE_TTL_SECS, ANNOUNCEMENT_INTERVAL_SECS, MULTICAST_PORT,
};
use syncclip::discovery::types::{AnnouncementPacket, Device, DiscoveryError, DiscoveryPacket, SearchPacket};

fn me(port: u16) -> Device {
    Device {
        id: "me".to_string(),
        name: "Desk".to_string(),
        ip: "0.0.0.0".to_string(),
        port,
        instance_id: 42,
        capabilities: vec!["clipboard".to_string()],
    }
}

fn announcement(id: &str) -> DiscoveryPacket {
    DiscoveryPacket::Announcement(AnnouncementPacket {
        device_id: id.to_string(),
        alias: "Laptop".to_string(),
        port: 5033,
        instance_id: 1699999999,
        version: "1.2.3".to_string(),
        capabilities: vec!["clipboard".to_string(), "file".to_string()],
    })
}

#[test]
fn group_constants() {
    assert_eq!(multicast_addr(), [224, 0, 0, 168]);
    assert_eq!(MULTICAST_PORT, 5354);
    assert_eq!(CACHE_TTL_SECS, 3 * ANNOUNCEMENT_INTERVAL_SECS);
}

#[test]
fn peer_announcement_is_registered() {
    match handle_packet(&me(5033), announcement("peer"), "10.0.0.7".to_string()) {
        PacketAction::Register(d) => {
            assert_eq!(d.id, "peer");
            assert_eq!(d.name, "Laptop");
            assert_eq!(d.ip, "10.0.0.7");
            assert_eq!(d.instance_id, 1699999999);
            assert_eq!(d.capabilities.len(), 2);
        }
        _ => panic!("expected a registration"),
    }
}

#[test]
fn own_announcement_is_ignored() {
    assert!(matches!(handle_packet(&me(5033), announcement("me"), "10.0.0.1".to_string()), PacketAction::Ignore));
}

#[test]
fn listening_node_answers_search() {
    let search = DiscoveryPacket::Search(SearchPacket { version: Some("1.2.3".to_string()) });
    assert!(matches!(handle_packet(&me(5033), search, "10.0.0.2".to_string()), PacketAction::Reply));
}

#[test]
fn scanner_never_answers_search() {
    let search = DiscoveryPacket::Search(SearchPacket { version: None });
    assert!(matches!(handle_packet(&me(0), search, "10.0.0.2".to_string()), PacketAction::Ignore));
}

#[test]
fn announcement_describes_self() {
    match announcement_for(&me(5033), "1.2.3") {
        DiscoveryPacket::Announcement(a) => {
            assert_eq!(a.device_id, "me");
            assert_eq!(a.alias, "Desk");
            assert_eq!(a.port, 5033);
            assert_eq!(a.instance_id, 42);
            assert_eq!(a.version, "1.2.3");
            assert_eq!(a.capabilities, vec!["clipboard".to_string()]);
        }
        _ => panic!("expected an announcement"),
    }
    match search_for("1.2.3") {
        DiscoveryPacket::Search(s) => assert_eq!(s.version.as_deref(), Some("1.2.3")),
        _ => panic!("expected a search"),
    }
}

#[test]
fn loopback_and_other_families_are_skipped() {
    let addrs = vec![Some([127, 0, 0, 1]), Some([192, 168, 1, 4]), None, Some([10, 0, 0, 3]), Some([127, 1, 2, 3])];
    assert_eq!(select_interfaces(&addrs), vec![[192, 168, 1, 4], [10, 0, 0, 3]]);
    assert!(select_interfaces(&vec![]).is_empty());
}

#[test]
fn join_needs_one_interface() {
    assert_eq!(join_outcome(true, 2).ok(), Some(2));
    match join_outcome(true, 0) {
        Err(DiscoveryError::Io(m)) => assert_eq!(m, "No valid network interfaces found for multicast"),
        _ => panic!("expected an error"),
    }
    match join_outcome(false, 0) {
        Err(DiscoveryError::Io(m)) => assert_eq!(m, "Failed to list network interfaces"),
        _ => panic!("expected an error"),
    }
}
