//! Devices and the packets that announce and search for them.

use vstd::prelude::*;

verus! {

/// A peer seen on the network.
pub struct Device {
    /// Stable per installation.
    pub id: String,
    pub name: String,
    pub ip: String,
    pub port: u16,
    /// Regenerated at every process start; tells a restart from a new device.
    pub instance_id: u64,
    pub capabilities: Vec<String>,
}

/// What a `Device` holds, as mathematical values.
pub struct DeviceView {
    pub id: Seq<char>,
    pub name: Seq<char>,
    pub ip: Seq<char>,
    pub port: u16,
    pub instance_id: u64,
    pub capabilities: Seq<Seq<char>>,
}

impl View for Device {
    type V = DeviceView;

    open spec fn view(&self) -> DeviceView {
        DeviceView {
            id: self.id@,
            name: self.name@,
            ip: self.ip@,
            port: self.port,
            instance_id: self.instance_id,
            capabilities: self.capabilities@.map_values(|s: String| s@),
        }
    }
}

/// Copies a list of strings.
pub fn copy_strings(v: &Vec<String>) -> (r: Vec<String>)
    ensures
        r@.map_values(|s: String| s@) == v@.map_values(|s: String| s@),
{
    let mut out: Vec<String> = Vec::new();
    let mut i: usize = 0;
    while i < v.len()
        invariant
            i <= v@.len(),
            out@.len() == i,
            forall|j: int| 0 <= j < i ==> out@[j]@ == v@[j]@,
        decreases v@.len() - i,
    {
        out.push(v[i].clone());
        i = i + 1;
    }
    assert(out@.map_values(|s: String| s@) =~= v@.map_values(|s: String| s@));
    out
}

impl Device {
    /// A copy of this device.
    pub fn duplicate(&self) -> (r: Device)
        ensures
            r@ == self@,
    {
        Device {
            id: self.id.clone(),
            name: self.name.clone(),
            ip: self.ip.clone(),
            port: self.port,
            instance_id: self.instance_id,
            capabilities: copy_strings(&self.capabilities),
        }
    }
}

/// How a device was found.
#[derive(Clone, Copy, PartialEq, Eq, Structural, Debug)]
pub enum DiscoveryMethod {
    Mdns,
    UdpMulticast,
}

/// A request that listening peers announce themselves.
pub struct SearchPacket {
    pub version: Option<String>,
}

/// A peer's announcement of itself.
pub struct AnnouncementPacket {
    pub device_id: String,
    pub alias: String,
    pub port: u16,
    pub instance_id: u64,
    pub version: String,
    pub capabilities: Vec<String>,
}

/// One discovery datagram.
pub enum DiscoveryPacket {
    Search(SearchPacket),
    Announcement(AnnouncementPacket),
}

/// Why discovery could not start or go on.
pub enum DiscoveryError {
    Io(String),
    Json(String),
    Mdns(String),
    InvalidConfig(String),
}

} // verus!
