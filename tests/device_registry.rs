use syncclip::discovery::cache::{DeviceCache, RegisterOutcome};
use syncclip::discovery::types::{Device, DiscoveryMethod};

fn device(id: &str, instance_id: u64) -> Device {
    Device {
        id: id.to_string(),
        name: format!("name-{}", id),
        ip: "192.168.1.5".to_string(),
        port: 5033,
        instance_id,
        capabilities: vec!["clipboard".to_string(), "file".to_string()],
    }
}

#[test]
fn first_announcement_is_new() {
    let mut cache = DeviceCache::new(90_000);
    assert_eq!(cache.register_device(device("a", 1), DiscoveryMethod::UdpMulticast, 0), RegisterOutcome::New);
    assert_eq!(cache.count(), 1);
}

#[test]
fn new_instance_id_is_a_restart() {
    let mut cache = DeviceCache::new(90_000);
    cache.register_device(device("a", 1), DiscoveryMethod::UdpMulticast, 0);
    assert_eq!(cache.register_device(device("a", 2), DiscoveryMethod::UdpMulticast, 10), RegisterOutcome::Restarted);
    assert_eq!(cache.count(), 1);
    assert_eq!(cache.get_devices()[0].instance_id, 2);
}

#[test]
fn same_instance_id_is_a_refresh() {
    let mut cache = DeviceCache::new(90_000);
    cache.register_device(device("a", 1), DiscoveryMethod::UdpMulticast, 0);
    assert_eq!(cache.register_device(device("a", 1), DiscoveryMethod::Mdns, 5), RegisterOutcome::Refreshed);
    assert_eq!(cache.count(), 1);
}

#[test]
fn entry_expires_at_ttl() {
    let ttl = 90_000;
    let mut cache = DeviceCache::new(ttl);
    cache.register_device(device("a", 1), DiscoveryMethod::UdpMulticast, 1_000);
    assert_eq!(cache.cleanup_expired(1_000 + ttl - 1), 0);
    assert_eq!(cache.count(), 1);
    assert_eq!(cache.cleanup_expired(1_000 + ttl + 1), 1);
    assert_eq!(cache.count(), 0);
}

#[test]
fn refresh_extends_life() {
    let mut cache = DeviceCache::new(100);
    cache.register_device(device("a", 1), DiscoveryMethod::UdpMulticast, 0);
    cache.register_device(device("b", 1), DiscoveryMethod::UdpMulticast, 0);
    cache.register_device(device("a", 1), DiscoveryMethod::UdpMulticast, 80);
    assert_eq!(cache.cleanup_expired(150), 1);
    let left = cache.get_devices();
    assert_eq!(left.len(), 1);
    assert_eq!(left[0].id, "a");
}

#[test]
fn last_seen_never_moves_back() {
    let mut cache = DeviceCache::new(100);
    cache.register_device(device("a", 1), DiscoveryMethod::UdpMulticast, 50);
    cache.register_device(device("a", 1), DiscoveryMethod::UdpMulticast, 10);
    assert_eq!(cache.cleanup_expired(140), 0);
    assert_eq!(cache.cleanup_expired(150), 1);
}

#[test]
fn snapshot_copies_devices() {
    let mut cache = DeviceCache::new(100);
    cache.register_device(device("a", 1), DiscoveryMethod::UdpMulticast, 0);
    cache.register_device(device("b", 7), DiscoveryMethod::UdpMulticast, 0);
    let devices = cache.get_devices();
    assert_eq!(devices.len(), 2);
    assert_eq!(devices[1].id, "b");
    assert_eq!(devices[1].name, "name-b");
    assert_eq!(devices[1].capabilities, vec!["clipboard".to_string(), "file".to_string()]);
}
