//! Clients that talked to the server recently, keyed by IP address.
//!
//! Times are seconds since the Unix epoch, supplied by the caller.

use crate::clipboard::copy_opt;
use vstd::prelude::*;

verus! {

/// Seconds after its last request that a client stops counting as active.
pub const ACTIVE_TIMEOUT_SECS: u64 = 300;

/// One client and its last request.
pub struct ConnectedClient {
    pub ip: String,
    pub device_name: Option<String>,
    pub user_agent: Option<String>,
    pub last_seen: u64,
    pub last_seen_timestamp: u64,
}

impl ConnectedClient {
    /// A copy of this client.
    pub fn duplicate(&self) -> (r: ConnectedClient)
        ensures
            r == *self,
    {
        ConnectedClient {
            ip: self.ip.clone(),
            device_name: copy_opt(&self.device_name),
            user_agent: copy_opt(&self.user_agent),
            last_seen: self.last_seen,
            last_seen_timestamp: self.last_seen_timestamp,
        }
    }
}

/// A new value, or the old one when the new one is absent.
pub open spec fn or_keep(new: Option<String>, old: Option<String>) -> Option<String> {
    match new {
        Some(v) => Some(v),
        None => old,
    }
}

/// The position of the client with this IP, or -1.
pub open spec fn find_ip(s: Seq<ConnectedClient>, ip: Seq<char>) -> int
    decreases s.len(),
{
    if s.len() == 0 {
        -1
    } else if s.last().ip@ == ip {
        s.len() - 1
    } else {
        find_ip(s.drop_last(), ip)
    }
}

/// No two clients share an IP.
pub open spec fn ips_unique(s: Seq<ConnectedClient>) -> bool {
    forall|i: int, j: int| 0 <= i < s.len() && 0 <= j < s.len() && i != j ==> #[trigger] s[i].ip@ != #[trigger] s[j].ip@
}

/// A client last seen at `last_seen` is still active at `now`; a clock
/// that went back counts as timed out.
pub open spec fn is_active(last_seen: u64, now: u64) -> bool {
    now >= last_seen && now - last_seen < ACTIVE_TIMEOUT_SECS
}

/// The clients still active at `now`, in order.
pub open spec fn active(s: Seq<ConnectedClient>, now: u64) -> Seq<ConnectedClient>
    decreases s.len(),
{
    if s.len() == 0 {
        s
    } else {
        let k = active(s.drop_last(), now);
        if is_active(s.last().last_seen, now) { k.push(s.last()) } else { k }
    }
}

proof fn lemma_find_ip(s: Seq<ConnectedClient>, ip: Seq<char>)
    requires
        ips_unique(s),
    ensures
        -1 <= find_ip(s, ip) < s.len(),
        find_ip(s, ip) >= 0 ==> s[find_ip(s, ip)].ip@ == ip,
        forall|j: int| 0 <= j < s.len() && s[j].ip@ == ip ==> find_ip(s, ip) == j,
    decreases s.len(),
{
    if s.len() > 0 {
        let t = s.drop_last();
        assert(ips_unique(t)) by {
            assert forall|i: int, j: int| 0 <= i < t.len() && 0 <= j < t.len() && i != j
                implies #[trigger] t[i].ip@ != #[trigger] t[j].ip@ by {
                assert(t[i] == s[i] && t[j] == s[j]);
            }
        }
        lemma_find_ip(t, ip);
        assert forall|j: int| 0 <= j < s.len() && s[j].ip@ == ip implies find_ip(s, ip) == j by {
            if s.last().ip@ != ip {
                assert(t[j] == s[j]);
            } else if j != s.len() - 1 {
                assert(s[j].ip@ != s[s.len() - 1].ip@);
            }
        }
    }
}

proof fn lemma_active_unique(s: Seq<ConnectedClient>, now: u64)
    requires
        ips_unique(s),
    ensures
        ips_unique(active(s, now)),
        forall|x: ConnectedClient| #[trigger] active(s, now).contains(x) ==> s.contains(x),
    decreases s.len(),
{
    if s.len() > 0 {
        let t = s.drop_last();
        assert(ips_unique(t)) by {
            assert forall|i: int, j: int| 0 <= i < t.len() && 0 <= j < t.len() && i != j
                implies #[trigger] t[i].ip@ != #[trigger] t[j].ip@ by {
                assert(t[i] == s[i] && t[j] == s[j]);
            }
        }
        lemma_active_unique(t, now);
        let k = active(t, now);
        assert forall|x: ConnectedClient| active(s, now).contains(x) implies s.contains(x) by {
            let j = choose|j: int| 0 <= j < active(s, now).len() && active(s, now)[j] == x;
            if j < k.len() {
                assert(active(s, now)[j] == k[j]);
                assert(k.contains(x));
                let m = choose|m: int| 0 <= m < t.len() && t[m] == x;
                assert(s[m] == x);
            } else {
                assert(s[s.len() - 1] == x);
            }
        }
        if is_active(s.last().last_seen, now) {
            let f = k.push(s.last());
            assert forall|i: int, j: int| 0 <= i < f.len() && 0 <= j < f.len() && i != j
                implies #[trigger] f[i].ip@ != #[trigger] f[j].ip@ by {
                if i < k.len() && j < k.len() {
                    assert(f[i] == k[i] && f[j] == k[j]);
                } else {
                    let a = if i < k.len() { i } else { j };
                    assert(k.contains(k[a]));
                    let m = choose|m: int| 0 <= m < t.len() && t[m] == k[a];
                    assert(s[m] == t[m]);
                    assert(s[m].ip@ != s[s.len() - 1].ip@);
                }
            }
        }
    }
}

/// The clients seen so far, one per IP.
pub struct ClientTracker {
    clients: Vec<ConnectedClient>,
}

impl ClientTracker {
    /// The clients, in order of first request.
    pub closed spec fn clients(&self) -> Seq<ConnectedClient> {
        self.clients@
    }

    /// The tracker's invariant: one entry per IP.
    pub open spec fn wf(&self) -> bool {
        ips_unique(self.clients())
    }

    /// A tracker that has seen no client.
    pub fn new() -> (r: ClientTracker)
        ensures
            r.wf(),
            r.clients() == Seq::<ConnectedClient>::empty(),
    {
        ClientTracker { clients: Vec::new() }
    }

    /// Records a request from `ip` at `now`. A device name or user agent that
    /// the request does not carry is kept from the client's earlier requests.
    pub fn record_client(&mut self, ip: String, device_name: Option<String>, user_agent: Option<String>, now: u64)
        requires
            old(self).wf(),
        ensures
            final(self).wf(),
            ({
                let s = old(self).clients();
                let i = find_ip(s, ip@);
                if i < 0 {
                    final(self).clients() == s.push(ConnectedClient {
                        ip,
                        device_name,
                        user_agent,
                        last_seen: now,
                        last_seen_timestamp: now,
                    })
                } else {
                    final(self).clients() == s.update(i, ConnectedClient {
                        ip,
                        device_name: or_keep(device_name, s[i].device_name),
                        user_agent: or_keep(user_agent, s[i].user_agent),
                        last_seen: now,
                        last_seen_timestamp: now,
                    })
                }
            }),
    {
        proof {
            lemma_find_ip(self.clients@, ip@);
        }
        let ghost before = self.clients@;
        let mut i: usize = 0;
        while i < self.clients.len()
            invariant
                i <= self.clients@.len(),
                self.clients@ == before,
                before == old(self).clients@,
                ips_unique(before),
                forall|j: int| 0 <= j < i ==> #[trigger] self.clients@[j].ip@ != ip@,
            decreases self.clients@.len() - i,
        {
            if self.clients[i].ip == ip {
                let dn = match device_name {
                    Some(v) => Some(v),
                    None => copy_opt(&self.clients[i].device_name),
                };
                let ua = match user_agent {
                    Some(v) => Some(v),
                    None => copy_opt(&self.clients[i].user_agent),
                };
                proof {
                    lemma_find_ip(before, ip@);
                    assert(before[i as int].ip@ == ip@);
                    assert(find_ip(before, ip@) == i);
                    assert(dn == or_keep(device_name, before[i as int].device_name));
                    assert(ua == or_keep(user_agent, before[i as int].user_agent));
                }
                let ghost entry = ConnectedClient { ip, device_name: dn, user_agent: ua, last_seen: now, last_seen_timestamp: now };
                self.clients.set(i, ConnectedClient { ip, device_name: dn, user_agent: ua, last_seen: now, last_seen_timestamp: now });
                assert(self.clients@ == before.update(i as int, entry));
                proof {
                    let s = self.clients@;
                    assert forall|a: int, b: int| 0 <= a < s.len() && 0 <= b < s.len() && a != b
                        implies #[trigger] s[a].ip@ != #[trigger] s[b].ip@ by {
                        if a != i && b != i {
                            assert(s[a] == before[a] && s[b] == before[b]);
                        } else if a == i {
                            assert(s[b] == before[b]);
                            assert(before[i as int].ip@ != before[b].ip@);
                        } else {
                            assert(s[a] == before[a]);
                            assert(before[i as int].ip@ != before[a].ip@);
                        }
                    }
                }
                return;
            }
            i = i + 1;
        }
        proof {
            lemma_find_ip(before, ip@);
        }
        self.clients.push(ConnectedClient { ip, device_name, user_agent, last_seen: now, last_seen_timestamp: now });
        proof {
            let s = self.clients@;
            assert forall|a: int, b: int| 0 <= a < s.len() && 0 <= b < s.len() && a != b
                implies #[trigger] s[a].ip@ != #[trigger] s[b].ip@ by {
                if a < before.len() && b < before.len() {
                    assert(s[a] == before[a] && s[b] == before[b]);
                } else if a < before.len() {
                    assert(s[a] == before[a]);
                } else {
                    assert(s[b] == before[b]);
                }
            }
        }
    }

    /// Forgets the clients that are no longer active at `now` and returns
    /// copies of the others.
    pub fn get_active_clients(&mut self, now: u64) -> (r: Vec<ConnectedClient>)
        requires
            old(self).wf(),
        ensures
            final(self).wf(),
            final(self).clients() == active(old(self).clients(), now),
            r@ == final(self).clients(),
    {
        let ghost orig = self.clients@;
        let mut i: usize = 0;
        let ghost mut done: int = 0;
        while i < self.clients.len()
            invariant
                0 <= done <= orig.len(),
                i <= self.clients@.len(),
                active(orig.subrange(0, done), now).len() == i,
                self.clients@ == active(orig.subrange(0, done), now) + orig.subrange(done, orig.len() as int),
            decreases orig.len() - done,
        {
            assert(orig.subrange(0, done + 1).drop_last() == orig.subrange(0, done));
            assert(self.clients@[i as int] == orig[done]);
            let seen = self.clients[i].last_seen;
            if now >= seen && now - seen < ACTIVE_TIMEOUT_SECS {
                i = i + 1;
            } else {
                let _gone = self.clients.remove(i);
            }
            assert(self.clients@ =~= active(orig.subrange(0, done + 1), now) + orig.subrange(done + 1, orig.len() as int));
            proof {
                done = done + 1;
            }
        }
        assert(orig.subrange(0, done) == orig);
        assert(self.clients@ =~= active(orig, now));
        proof {
            lemma_active_unique(orig, now);
        }
        let mut out: Vec<ConnectedClient> = Vec::new();
        let mut j: usize = 0;
        while j < self.clients.len()
            invariant
                j <= self.clients@.len(),
                out@ == self.clients@.subrange(0, j as int),
            decreases self.clients@.len() - j,
        {
            out.push(self.clients[j].duplicate());
            j = j + 1;
            assert(out@ =~= self.clients@.subrange(0, j as int));
        }
        assert(self.clients@.subrange(0, j as int) =~= self.clients@);
        out
    }
}

impl Default for ClientTracker {
    fn default() -> (r: ClientTracker)
        ensures
            r.wf(),
            r.clients() == Seq::<ConnectedClient>::empty(),
    {
        ClientTracker::new()
    }
}

} // verus!
