//! The registry of peers seen recently, with time-based eviction.
//!
//! Times are monotonic milliseconds supplied by the caller.

use super::types::{Device, DiscoveryMethod};
use vstd::prelude::*;

verus! {

/// One registered peer and when it was last heard from.
pub struct DeviceEntry {
    pub device: Device,
    pub last_seen: u64,
    pub discovery_method: DiscoveryMethod,
}

/// What registering an announcement found.
#[derive(Clone, Copy, PartialEq, Eq, Structural, Debug)]
pub enum RegisterOutcome {
    /// No entry had this device id.
    New,
    /// An entry had this device id with another instance id.
    Restarted,
    /// An entry had this device id and the same instance id.
    Refreshed,
}

/// Age of an entry at `now`; a clock that went back counts as zero.
pub open spec fn age(last_seen: u64, now: u64) -> int {
    if now >= last_seen { now - last_seen } else { 0 }
}

/// An entry last seen at `last_seen` is stale at `now`.
pub open spec fn is_expired(last_seen: u64, now: u64, ttl: u64) -> bool {
    age(last_seen, now) >= ttl
}

/// The position of the entry for `id`, or -1.
pub open spec fn find_id(s: Seq<DeviceEntry>, id: Seq<char>) -> int
    decreases s.len(),
{
    if s.len() == 0 {
        -1
    } else if s.last().device.id@ == id {
        s.len() - 1
    } else {
        find_id(s.drop_last(), id)
    }
}

/// No two entries share a device id.
pub open spec fn ids_unique(s: Seq<DeviceEntry>) -> bool {
    forall|i: int, j: int|
        0 <= i < s.len() && 0 <= j < s.len() && i != j
            ==> #[trigger] s[i].device.id@ != #[trigger] s[j].device.id@
}

/// What registering `device` reports against the entries `s`.
pub open spec fn register_outcome(s: Seq<DeviceEntry>, device: Device) -> RegisterOutcome {
    let i = find_id(s, device.id@);
    if i < 0 {
        RegisterOutcome::New
    } else if s[i].device.instance_id != device.instance_id {
        RegisterOutcome::Restarted
    } else {
        RegisterOutcome::Refreshed
    }
}

/// The entries after registering `device` at `now`: the entry for its id is
/// replaced in place (its last-seen time never moves back), or one is added.
pub open spec fn registered(s: Seq<DeviceEntry>, device: Device, method: DiscoveryMethod, now: u64) -> Seq<DeviceEntry> {
    let i = find_id(s, device.id@);
    if i < 0 {
        s.push(DeviceEntry { device, last_seen: now, discovery_method: method })
    } else {
        let seen = if s[i].last_seen > now { s[i].last_seen } else { now };
        s.update(i, DeviceEntry { device, last_seen: seen, discovery_method: method })
    }
}

/// The entries that are still fresh at `now`, in order.
pub open spec fn fresh(s: Seq<DeviceEntry>, now: u64, ttl: u64) -> Seq<DeviceEntry>
    decreases s.len(),
{
    if s.len() == 0 {
        s
    } else {
        let k = fresh(s.drop_last(), now, ttl);
        if is_expired(s.last().last_seen, now, ttl) { k } else { k.push(s.last()) }
    }
}

proof fn lemma_find_id(s: Seq<DeviceEntry>, id: Seq<char>)
    requires
        ids_unique(s),
    ensures
        find_id(s, id) >= -1,
        find_id(s, id) >= 0 ==> find_id(s, id) < s.len() && s[find_id(s, id)].device.id@ == id,
        find_id(s, id) < 0 ==> forall|j: int| 0 <= j < s.len() ==> s[j].device.id@ != id,
        forall|j: int| 0 <= j < s.len() && s[j].device.id@ == id ==> find_id(s, id) == j,
    decreases s.len(),
{
    if s.len() > 0 {
        let t = s.drop_last();
        assert(ids_unique(t)) by {
            assert forall|i: int, j: int|
                0 <= i < t.len() && 0 <= j < t.len() && i != j
                implies #[trigger] t[i].device.id@ != #[trigger] t[j].device.id@ by {
                assert(t[i] == s[i] && t[j] == s[j]);
            }
        }
        lemma_find_id(t, id);
        if s.last().device.id@ != id {
            assert forall|j: int| 0 <= j < s.len() && s[j].device.id@ == id implies find_id(s, id) == j by {
                assert(j < t.len());
                assert(t[j] == s[j]);
            }
        } else {
            assert forall|j: int| 0 <= j < s.len() && s[j].device.id@ == id implies find_id(s, id) == j by {
                if j != s.len() - 1 {
                    assert(s[j].device.id@ != s[s.len() - 1].device.id@);
                }
            }
        }
    }
}

proof fn lemma_fresh_subset(s: Seq<DeviceEntry>, now: u64, ttl: u64)
    ensures
        forall|x: DeviceEntry| fresh(s, now, ttl).contains(x) ==> s.contains(x) && !is_expired(x.last_seen, now, ttl),
        forall|x: DeviceEntry| s.contains(x) && !is_expired(x.last_seen, now, ttl) ==> fresh(s, now, ttl).contains(x),
        fresh(s, now, ttl).len() <= s.len(),
    decreases s.len(),
{
    if s.len() > 0 {
        let t = s.drop_last();
        lemma_fresh_subset(t, now, ttl);
        let k = fresh(t, now, ttl);
        assert forall|x: DeviceEntry| fresh(s, now, ttl).contains(x) implies s.contains(x) && !is_expired(x.last_seen, now, ttl) by {
            if k.contains(x) {
                let j = choose|j: int| 0 <= j < k.len() && k[j] == x;
                assert(t.contains(x));
                let m = choose|m: int| 0 <= m < t.len() && t[m] == x;
                assert(s[m] == x);
            } else {
                assert(fresh(s, now, ttl) == k.push(s.last()));
                let j = choose|j: int| 0 <= j < k.len() + 1 && k.push(s.last())[j] == x;
                assert(j == k.len());
                assert(s[s.len() - 1] == x);
            }
        }
        assert forall|x: DeviceEntry| s.contains(x) && !is_expired(x.last_seen, now, ttl) implies fresh(s, now, ttl).contains(x) by {
            let m = choose|m: int| 0 <= m < s.len() && s[m] == x;
            if m < t.len() {
                assert(t[m] == x);
                assert(t.contains(x));
                let j = choose|j: int| 0 <= j < k.len() && k[j] == x;
                if !is_expired(s.last().last_seen, now, ttl) {
                    assert(k.push(s.last())[j] == x);
                }
            } else {
                assert(k.push(s.last())[k.len() as int] == x);
            }
        }
    }
}

proof fn lemma_fresh_unique(s: Seq<DeviceEntry>, now: u64, ttl: u64)
    requires
        ids_unique(s),
    ensures
        ids_unique(fresh(s, now, ttl)),
    decreases s.len(),
{
    if s.len() > 0 {
        let t = s.drop_last();
        assert(ids_unique(t)) by {
            assert forall|i: int, j: int|
                0 <= i < t.len() && 0 <= j < t.len() && i != j
                implies #[trigger] t[i].device.id@ != #[trigger] t[j].device.id@ by {
                assert(t[i] == s[i] && t[j] == s[j]);
            }
        }
        lemma_fresh_unique(t, now, ttl);
        lemma_fresh_subset(t, now, ttl);
        let k = fresh(t, now, ttl);
        if !is_expired(s.last().last_seen, now, ttl) {
            let f = k.push(s.last());
            assert forall|i: int, j: int|
                0 <= i < f.len() && 0 <= j < f.len() && i != j
                implies #[trigger] f[i].device.id@ != #[trigger] f[j].device.id@ by {
                if i < k.len() && j < k.len() {
                    assert(f[i] == k[i] && f[j] == k[j]);
                } else {
                    let a = if i < k.len() { i } else { j };
                    assert(k.contains(k[a]));
                    assert(t.contains(k[a]));
                    let m = choose|m: int| 0 <= m < t.len() && t[m] == k[a];
                    assert(s[m] == t[m]);
                    assert(s[m].device.id@ != s[s.len() - 1].device.id@);
                }
            }
        }
    }
}

/// The registry: at most one entry per device id.
pub struct DeviceCache {
    devices: Vec<DeviceEntry>,
    ttl: u64,
}

impl DeviceCache {
    /// The entries, in registration order.
    pub closed spec fn entries(&self) -> Seq<DeviceEntry> {
        self.devices@
    }

    /// How long an entry lives without a new announcement.
    pub closed spec fn ttl(&self) -> u64 {
        self.ttl
    }

    /// The registry's invariant: one entry per device id.
    pub open spec fn wf(&self) -> bool {
        ids_unique(self.entries())
    }

    /// An empty registry whose entries live `ttl` milliseconds.
    pub fn new(ttl: u64) -> (r: DeviceCache)
        ensures
            r.wf(),
            r.entries() == Seq::<DeviceEntry>::empty(),
            r.ttl() == ttl,
    {
        DeviceCache { devices: Vec::new(), ttl }
    }

    /// The position of the entry for `id`, if any.
    fn position(&self, id: &String) -> (r: Option<usize>)
        requires
            self.wf(),
        ensures
            r matches Some(i) ==> find_id(self.entries(), id@) == i,
            r is None ==> find_id(self.entries(), id@) == -1,
    {
        proof {
            lemma_find_id(self.devices@, id@);
        }
        let mut i: usize = 0;
        while i < self.devices.len()
            invariant
                i <= self.devices@.len(),
                ids_unique(self.devices@),
                forall|j: int| 0 <= j < i ==> self.devices@[j].device.id@ != id@,
            decreases self.devices@.len() - i,
        {
            if self.devices[i].device.id == *id {
                assert(self.devices@[i as int].device.id@ == id@);
                proof {
                    lemma_find_id(self.devices@, id@);
                }
                return Some(i);
            }
            i = i + 1;
        }
        None
    }

    /// Inserts or refreshes the entry for `device` at time `now`, and reports
    /// whether the device is new, restarted (another instance id), or known.
    pub fn register_device(&mut self, device: Device, method: DiscoveryMethod, now: u64) -> (r: RegisterOutcome)
        requires
            old(self).wf(),
        ensures
            final(self).wf(),
            final(self).ttl() == old(self).ttl(),
            r == register_outcome(old(self).entries(), device),
            final(self).entries() == registered(old(self).entries(), device, method, now),
    {
        proof {
            lemma_find_id(self.devices@, device.id@);
        }
        match self.position(&device.id) {
            Some(i) => {
                let outcome = if self.devices[i].device.instance_id != device.instance_id {
                    RegisterOutcome::Restarted
                } else {
                    RegisterOutcome::Refreshed
                };
                let seen = if self.devices[i].last_seen > now { self.devices[i].last_seen } else { now };
                let ghost before = self.devices@;
                self.devices.set(i, DeviceEntry { device, last_seen: seen, discovery_method: method });
                proof {
                    let s = self.devices@;
                    assert forall|a: int, b: int|
                        0 <= a < s.len() && 0 <= b < s.len() && a != b
                        implies #[trigger] s[a].device.id@ != #[trigger] s[b].device.id@ by {
                        if a != i && b != i {
                            assert(s[a] == before[a] && s[b] == before[b]);
                        } else if a == i {
                            assert(s[b] == before[b]);
                            assert(before[i as int].device.id@ != before[b].device.id@);
                        } else {
                            assert(s[a] == before[a]);
                            assert(before[i as int].device.id@ != before[a].device.id@);
                        }
                    }
                }
                outcome
            },
            None => {
                let ghost before = self.devices@;
                self.devices.push(DeviceEntry { device, last_seen: now, discovery_method: method });
                proof {
                    let s = self.devices@;
                    assert forall|a: int, b: int|
                        0 <= a < s.len() && 0 <= b < s.len() && a != b
                        implies #[trigger] s[a].device.id@ != #[trigger] s[b].device.id@ by {
                        if a < before.len() && b < before.len() {
                            assert(s[a] == before[a] && s[b] == before[b]);
                        } else if a < before.len() {
                            assert(s[a] == before[a]);
                        } else {
                            assert(s[b] == before[b]);
                        }
                    }
                }
                RegisterOutcome::New
            },
        }
    }

    /// Copies of the registered devices, in registration order.
    pub fn get_devices(&self) -> (r: Vec<Device>)
        ensures
            r@.len() == self.entries().len(),
            forall|i: int| 0 <= i < r@.len() ==> #[trigger] r@[i]@ == self.entries()[i].device@,
    {
        let mut out: Vec<Device> = Vec::new();
        let mut i: usize = 0;
        while i < self.devices.len()
            invariant
                i <= self.devices@.len(),
                out@.len() == i,
                forall|j: int| 0 <= j < i ==> #[trigger] out@[j]@ == self.devices@[j].device@,
            decreases self.devices@.len() - i,
        {
            out.push(self.devices[i].device.duplicate());
            i = i + 1;
        }
        out
    }

    /// Removes every entry whose age at `now` is at least the TTL, keeping
    /// the others in order; returns how many were removed.
    pub fn cleanup_expired(&mut self, now: u64) -> (r: usize)
        requires
            old(self).wf(),
        ensures
            final(self).wf(),
            final(self).ttl() == old(self).ttl(),
            final(self).entries() == fresh(old(self).entries(), now, old(self).ttl()),
            r == old(self).entries().len() - final(self).entries().len(),
    {
        let ghost orig = self.devices@;
        let ttl = self.ttl;
        let before_count = self.devices.len();
        let mut i: usize = 0;
        let ghost mut done: int = 0;
        while i < self.devices.len()
            invariant
                0 <= done <= orig.len(),
                i <= self.devices@.len(),
                self.ttl == ttl,
                before_count == orig.len(),
                fresh(orig.subrange(0, done), now, ttl).len() == i,
                self.devices@ == fresh(orig.subrange(0, done), now, ttl) + orig.subrange(done, orig.len() as int),
            decreases orig.len() - done,
        {
            let ghost pre = self.devices@;
            assert(orig.subrange(0, done + 1).drop_last() == orig.subrange(0, done));
            assert(pre[i as int] == orig[done]);
            let seen = self.devices[i].last_seen;
            let expired = if now >= seen { now - seen >= ttl } else { 0 >= ttl };
            if expired {
                let _gone = self.devices.remove(i);
                assert(self.devices@ =~= fresh(orig.subrange(0, done + 1), now, ttl) + orig.subrange(done + 1, orig.len() as int));
            } else {
                i = i + 1;
                assert(self.devices@ =~= fresh(orig.subrange(0, done + 1), now, ttl) + orig.subrange(done + 1, orig.len() as int));
            }
            proof {
                done = done + 1;
            }
        }
        assert(orig.subrange(0, done) == orig);
        assert(self.devices@ =~= fresh(orig, now, ttl));
        proof {
            lemma_fresh_unique(orig, now, ttl);
            lemma_fresh_subset(orig, now, ttl);
        }
        before_count - self.devices.len()
    }

    /// How many devices are registered.
    pub fn count(&self) -> (r: usize)
        ensures
            r == self.entries().len(),
    {
        self.devices.len()
    }
}

/// Announcing a device id twice with two different instance ids is reported
/// as a restart of a known device, never as a new device.
pub proof fn lemma_reannounce_is_restart(
    s: Seq<DeviceEntry>,
    d1: Device,
    d2: Device,
    m1: DiscoveryMethod,
    t1: u64,
)
    requires
        ids_unique(s),
        d1.id@ == d2.id@,
        d1.instance_id != d2.instance_id,
    ensures
        register_outcome(registered(s, d1, m1, t1), d2) == RegisterOutcome::Restarted,
{
    lemma_find_id(s, d1.id@);
    let s2 = registered(s, d1, m1, t1);
    let i = find_id(s, d1.id@);
    let k = if i < 0 { s.len() as int } else { i };
    assert(s2[k].device == d1);
    assert(ids_unique(s2)) by {
        assert forall|a: int, b: int|
            0 <= a < s2.len() && 0 <= b < s2.len() && a != b
            implies #[trigger] s2[a].device.id@ != #[trigger] s2[b].device.id@ by {
            if a != k && b != k {
                assert(s2[a] == s[a] && s2[b] == s[b]);
            } else if a == k {
                assert(s2[b] == s[b]);
            } else {
                assert(s2[a] == s[a]);
            }
        }
    }
    lemma_find_id(s2, d2.id@);
}

/// An entry last seen at `t` survives a cleanup at `t + ttl - eps` and is
/// gone after a cleanup at `t + ttl + eps`, for any `eps > 0`: no entry with
/// its device id is left then.
pub proof fn lemma_ttl_boundary(s: Seq<DeviceEntry>, i: int, ttl: u64, eps: u64)
    requires
        ids_unique(s),
        0 <= i < s.len(),
        ttl > 0,
        0 < eps <= s[i].last_seen + ttl,
        s[i].last_seen + ttl + eps <= u64::MAX,
    ensures
        fresh(s, (s[i].last_seen + ttl - eps) as u64, ttl).contains(s[i]),
        forall|j: int| 0 <= j < fresh(s, (s[i].last_seen + ttl + eps) as u64, ttl).len()
            ==> #[trigger] fresh(s, (s[i].last_seen + ttl + eps) as u64, ttl)[j].device.id@ != s[i].device.id@,
{
    let early = (s[i].last_seen + ttl - eps) as u64;
    let late = (s[i].last_seen + ttl + eps) as u64;
    assert(s.contains(s[i]));
    lemma_fresh_subset(s, early, ttl);
    lemma_fresh_subset(s, late, ttl);
    let f = fresh(s, late, ttl);
    assert forall|j: int| 0 <= j < f.len() implies #[trigger] f[j].device.id@ != s[i].device.id@ by {
        assert(f.contains(f[j]));
        assert(s.contains(f[j]) && !is_expired(f[j].last_seen, late, ttl));
        let m = choose|m: int| 0 <= m < s.len() && s[m] == f[j];
        assert(is_expired(s[i].last_seen, late, ttl));
        if m != i {
            assert(s[m].device.id@ != s[i].device.id@);
        }
    }
}

} // verus!
