//! Combining the peers that the discovery sources (manual host entries and mDNS) report: one
//! entry per socket address, a manual assertion wins the source, a known peer id wins over an
//! unknown one, and the result is ordered by address.

use crate::ownership::opt_view;
use vstd::prelude::*;

verus! {

/// Where a discovered peer came from.
#[derive(Debug, Clone, Copy, PartialEq, Eq, Structural)]
pub enum PeerSource {
    Manual,
    Mdns,
}

/// A socket address as plain values. IPv4 addresses carry their 32 address bits in `ip` and zero
/// flow info and scope id.
#[derive(Debug, Clone, Copy, PartialEq, Eq, Structural)]
pub struct PeerAddr {
    pub is_v6: bool,
    pub ip: u128,
    pub port: u16,
    pub flowinfo: u32,
    pub scope_id: u32,
}

/// The order of socket addresses: IPv4 before IPv6, then address, port, flow info, scope id.
pub open spec fn addr_lt(a: PeerAddr, b: PeerAddr) -> bool {
    if a.is_v6 != b.is_v6 {
        !a.is_v6
    } else if a.ip != b.ip {
        a.ip < b.ip
    } else if a.port != b.port {
        a.port < b.port
    } else if a.flowinfo != b.flowinfo {
        a.flowinfo < b.flowinfo
    } else {
        a.scope_id < b.scope_id
    }
}

pub fn addr_less(a: &PeerAddr, b: &PeerAddr) -> (r: bool)
    ensures
        r == addr_lt(*a, *b),
{
    if a.is_v6 != b.is_v6 {
        !a.is_v6
    } else if a.ip != b.ip {
        a.ip < b.ip
    } else if a.port != b.port {
        a.port < b.port
    } else if a.flowinfo != b.flowinfo {
        a.flowinfo < b.flowinfo
    } else {
        a.scope_id < b.scope_id
    }
}

/// The address order is a strict total order.
pub proof fn lemma_addr_order(a: PeerAddr, b: PeerAddr, c: PeerAddr)
    ensures
        !addr_lt(a, a),
        addr_lt(a, b) ==> !addr_lt(b, a),
        addr_lt(a, b) && addr_lt(b, c) ==> addr_lt(a, c),
        a != b ==> addr_lt(a, b) || addr_lt(b, a),
{
}

/// A peer we might connect to, from either discovery source.
#[derive(Debug, PartialEq, Eq)]
pub struct DiscoveredPeer {
    /// The peer's stable id, when known (mDNS TXT record, or learned after a handshake).
    pub peer_id: Option<String>,
    pub addr: PeerAddr,
    pub source: PeerSource,
}

pub struct DiscoveredPeerView {
    pub peer_id: Option<Seq<char>>,
    pub addr: PeerAddr,
    pub source: PeerSource,
}

impl View for DiscoveredPeer {
    type V = DiscoveredPeerView;

    open spec fn view(&self) -> DiscoveredPeerView {
        DiscoveredPeerView { peer_id: opt_view(self.peer_id), addr: self.addr, source: self.source }
    }
}

impl Clone for DiscoveredPeer {
    fn clone(&self) -> (r: Self)
        ensures
            r == *self,
    {
        DiscoveredPeer {
            peer_id: match &self.peer_id {
                Some(s) => Some(s.clone()),
                None => None,
            },
            addr: self.addr,
            source: self.source,
        }
    }
}

pub open spec fn peer_views(v: Seq<DiscoveredPeer>) -> Seq<DiscoveredPeerView> {
    v.map_values(|p: DiscoveredPeer| p@)
}

/// Every peer that the sources report, source after source, in order.
pub open spec fn found_in(sources: Seq<Vec<DiscoveredPeer>>) -> Seq<DiscoveredPeerView>
    decreases sources.len(),
{
    if sources.len() == 0 {
        seq![]
    } else {
        found_in(sources.drop_last()) + peer_views(sources.last()@)
    }
}

/// Some report names the address.
pub open spec fn seen(found: Seq<DiscoveredPeerView>, a: PeerAddr) -> bool {
    exists|i: int| 0 <= i < found.len() && #[trigger] found[i].addr == a
}

/// Some report for the address came from a manual entry.
pub open spec fn manual_at(found: Seq<DiscoveredPeerView>, a: PeerAddr) -> bool {
    exists|i: int| 0 <= i < found.len() && #[trigger] found[i].addr == a && found[i].source == PeerSource::Manual
}

/// The first known peer id reported for the address.
pub open spec fn first_id(found: Seq<DiscoveredPeerView>, a: PeerAddr) -> Option<Seq<char>>
    decreases found.len(),
{
    if found.len() == 0 {
        None
    } else {
        let earlier = first_id(found.drop_last(), a);
        if earlier is Some {
            earlier
        } else if found.last().addr == a {
            found.last().peer_id
        } else {
            None
        }
    }
}

/// What the merged entry for its address says, given every report.
pub open spec fn entry_of(e: DiscoveredPeerView, found: Seq<DiscoveredPeerView>) -> bool {
    &&& seen(found, e.addr)
    &&& e.peer_id == first_id(found, e.addr)
    &&& (e.source == PeerSource::Manual <==> manual_at(found, e.addr))
}

/// `out` is the merge of `found`: one entry per reported address, in address order.
pub open spec fn merged_from(out: Seq<DiscoveredPeerView>, found: Seq<DiscoveredPeerView>) -> bool {
    &&& forall|i: int, j: int| 0 <= i < j < out.len() ==> addr_lt(#[trigger] out[i].addr, #[trigger] out[j].addr)
    &&& forall|i: int| 0 <= i < out.len() ==> entry_of(#[trigger] out[i], found)
    &&& forall|a: PeerAddr| #[trigger] seen(found, a) ==> exists|i: int| 0 <= i < out.len() && #[trigger] out[i].addr == a
}

proof fn lemma_found_push(found: Seq<DiscoveredPeerView>, x: DiscoveredPeerView, a: PeerAddr)
    ensures
        seen(found.push(x), a) == (seen(found, a) || x.addr == a),
        manual_at(found.push(x), a) == (manual_at(found, a) || (x.addr == a && x.source == PeerSource::Manual)),
        first_id(found.push(x), a) == (if first_id(found, a) is Some {
            first_id(found, a)
        } else if x.addr == a {
            x.peer_id
        } else {
            None
        }),
{
    let f2 = found.push(x);
    assert(f2.drop_last() =~= found);
    assert(f2[found.len() as int] == x);
    if seen(found, a) {
        let i = choose|i: int| 0 <= i < found.len() && #[trigger] found[i].addr == a;
        assert(f2[i] == found[i]);
    }
    if seen(f2, a) && !(x.addr == a) {
        let i = choose|i: int| 0 <= i < f2.len() && #[trigger] f2[i].addr == a;
        assert(f2[i] == found[i]);
    }
    if manual_at(found, a) {
        let i = choose|i: int| 0 <= i < found.len() && #[trigger] found[i].addr == a && found[i].source == PeerSource::Manual;
        assert(f2[i] == found[i]);
    }
    if manual_at(f2, a) && !(x.addr == a && x.source == PeerSource::Manual) {
        let i = choose|i: int| 0 <= i < f2.len() && #[trigger] f2[i].addr == a && f2[i].source == PeerSource::Manual;
        assert(f2[i] == found[i]);
    }
}

/// Fold one more report into a merge.
fn absorb(out: &mut Vec<DiscoveredPeer>, p: &DiscoveredPeer, Ghost(found): Ghost<Seq<DiscoveredPeerView>>)
    requires
        merged_from(peer_views(old(out)@), found),
    ensures
        merged_from(peer_views(final(out)@), found.push(p@)),
{
    let ghost before = peer_views(out@);
    let ghost x = p@;
    let ghost f2 = found.push(x);
    let mut pos: usize = 0;
    while pos < out.len()
        invariant
            pos <= out.len(),
            peer_views(out@) == before,
            forall|j: int| 0 <= j < pos ==> addr_lt(#[trigger] out@[j].addr, p.addr),
        ensures
            pos <= out.len(),
            peer_views(out@) == before,
            forall|j: int| 0 <= j < pos ==> addr_lt(#[trigger] out@[j].addr, p.addr),
            pos < out.len() ==> !addr_lt(out@[pos as int].addr, p.addr),
        decreases out.len() - pos,
    {
        if !addr_less(&out[pos].addr, &p.addr) {
            break;
        }
        pos = pos + 1;
    }
    assert forall|a: PeerAddr| true implies {
        &&& seen(f2, a) == (seen(found, a) || x.addr == a)
        &&& manual_at(f2, a) == (manual_at(found, a) || (x.addr == a && x.source == PeerSource::Manual))
        &&& first_id(f2, a) == (if first_id(found, a) is Some {
            first_id(found, a)
        } else if x.addr == a {
            x.peer_id
        } else {
            None
        })
    } by {
        lemma_found_push(found, x, a);
    }
    assert(forall|i: int| 0 <= i < out.len() ==> #[trigger] before[i] == out@[i]@);
    if pos < out.len() && out[pos].addr == p.addr {
        let source = if p.source == PeerSource::Manual {
            PeerSource::Manual
        } else {
            out[pos].source
        };
        let peer_id = match &out[pos].peer_id {
            Some(s) => Some(s.clone()),
            None => match &p.peer_id {
                Some(s) => Some(s.clone()),
                None => None,
            },
        };
        let entry = DiscoveredPeer { peer_id, addr: p.addr, source };
        let ghost e = entry@;
        assert(entry_of(before[pos as int], found));
        out.set(pos, entry);
        let ghost after = peer_views(out@);
        assert(after =~= before.update(pos as int, e));
        assert forall|i: int| 0 <= i < after.len() implies #[trigger] entry_of(after[i], f2) by {
            if i != pos {
                assert(entry_of(before[i], found));
                assert(before[i].addr != x.addr) by {
                    lemma_addr_order(before[i].addr, before[pos as int].addr, x.addr);
                }
            }
        }
        assert forall|a: PeerAddr| #[trigger] seen(f2, a) implies exists|i: int| 0 <= i < after.len() && #[trigger] after[i].addr == a by {
            if a == x.addr {
                assert(after[pos as int].addr == a);
            } else {
                assert(seen(found, a));
                let i = choose|i: int| 0 <= i < before.len() && #[trigger] before[i].addr == a;
                assert(after[i].addr == a);
            }
        }
    } else {
        let entry = DiscoveredPeer {
            peer_id: match &p.peer_id {
                Some(s) => Some(s.clone()),
                None => None,
            },
            addr: p.addr,
            source: p.source,
        };
        let ghost e = entry@;
        assert(!seen(found, x.addr)) by {
            if seen(found, x.addr) {
                let k = choose|k: int| 0 <= k < before.len() && #[trigger] before[k].addr == x.addr;
                if k < pos {
                    assert(addr_lt(out@[k].addr, p.addr));
                    lemma_addr_order(x.addr, x.addr, x.addr);
                } else {
                    assert(pos < out.len());
                    if k > pos {
                        assert(addr_lt(before[pos as int].addr, before[k].addr));
                        lemma_addr_order(before[pos as int].addr, x.addr, x.addr);
                    }
                }
            }
        }
        out.insert(pos, entry);
        let ghost after = peer_views(out@);
        assert(after =~= before.insert(pos as int, e));
        assert forall|i: int, j: int| 0 <= i < j < after.len() implies addr_lt(#[trigger] after[i].addr, #[trigger] after[j].addr) by {
            if pos < before.len() {
                assert(before[pos as int].addr != x.addr);
                lemma_addr_order(before[pos as int].addr, x.addr, x.addr);
                assert(addr_lt(x.addr, before[pos as int].addr));
            }
            if j < pos {
                assert(after[i] == before[i] && after[j] == before[j]);
            } else if j == pos {
                assert(after[i] == before[i]);
            } else if i == pos {
                assert(after[j] == before[j - 1]);
                if j - 1 > pos {
                    lemma_addr_order(x.addr, before[pos as int].addr, before[j - 1].addr);
                }
            } else if i < pos {
                assert(after[i] == before[i] && after[j] == before[j - 1]);
                assert(addr_lt(before[i].addr, x.addr));
                if j - 1 >= pos {
                    lemma_addr_order(before[i].addr, x.addr, before[j - 1].addr);
                    if j - 1 > pos {
                        lemma_addr_order(x.addr, before[pos as int].addr, before[j - 1].addr);
                    }
                }
            } else {
                assert(after[i] == before[i - 1] && after[j] == before[j - 1]);
            }
        }
        assert forall|i: int| 0 <= i < after.len() implies #[trigger] entry_of(after[i], f2) by {
            if i < pos {
                assert(after[i] == before[i]);
                assert(entry_of(before[i], found));
            } else if i > pos {
                assert(after[i] == before[i - 1]);
                assert(entry_of(before[i - 1], found));
            } else {
                assert(!manual_at(found, x.addr)) by {
                    if manual_at(found, x.addr) {
                        let k = choose|k: int| 0 <= k < found.len() && #[trigger] found[k].addr == x.addr && found[k].source == PeerSource::Manual;
                        assert(seen(found, x.addr));
                    }
                }
                assert(first_id(found, x.addr) is None) by {
                    lemma_first_id_unseen(found, x.addr);
                }
            }
        }
        assert forall|a: PeerAddr| #[trigger] seen(f2, a) implies exists|i: int| 0 <= i < after.len() && #[trigger] after[i].addr == a by {
            if a == x.addr {
                assert(after[pos as int].addr == a);
            } else {
                assert(seen(found, a));
                let i = choose|i: int| 0 <= i < before.len() && #[trigger] before[i].addr == a;
                if i < pos {
                    assert(after[i].addr == a);
                } else {
                    assert(after[i + 1].addr == a);
                }
            }
        }
    }
}

proof fn lemma_first_id_unseen(found: Seq<DiscoveredPeerView>, a: PeerAddr)
    requires
        !seen(found, a),
    ensures
        first_id(found, a) is None,
    decreases found.len(),
{
    if found.len() > 0 {
        let d = found.drop_last();
        assert(!seen(d, a)) by {
            if seen(d, a) {
                let i = choose|i: int| 0 <= i < d.len() && #[trigger] d[i].addr == a;
                assert(found[i] == d[i]);
            }
        }
        lemma_first_id_unseen(d, a);
        assert(found[found.len() - 1].addr != a);
    }
}

/// Merge the peers reported by several discovery sources into one entry per socket address,
/// ordered by address. A manually entered address keeps the manual source, and the first known
/// peer id reported for an address is kept over an unknown one.
pub fn merge(sources: &[Vec<DiscoveredPeer>]) -> (out: Vec<DiscoveredPeer>)
    ensures
        merged_from(peer_views(out@), found_in(sources@)),
{
    let mut out: Vec<DiscoveredPeer> = Vec::new();
    let ghost mut found: Seq<DiscoveredPeerView> = seq![];
    assert(peer_views(out@) =~= seq![]);
    assert(found_in(sources@.take(0)) =~= seq![]);
    let mut s: usize = 0;
    while s < sources.len()
        invariant
            s <= sources.len(),
            found == found_in(sources@.take(s as int)),
            merged_from(peer_views(out@), found),
        decreases sources.len() - s,
    {
        let v = &sources[s];
        let ghost start = found;
        let mut t: usize = 0;
        while t < v.len()
            invariant
                t <= v.len(),
                v == sources@[s as int],
                found == start + peer_views(v@.take(t as int)),
                merged_from(peer_views(out@), found),
            decreases v.len() - t,
        {
            absorb(&mut out, &v[t], Ghost(found));
            proof {
                assert(peer_views(v@.take(t + 1)) =~= peer_views(v@.take(t as int)).push(v@[t as int]@));
                found = found.push(v@[t as int]@);
                assert(found =~= start + peer_views(v@.take(t + 1)));
            }
            t = t + 1;
        }
        proof {
            assert(v@.take(v.len() as int) =~= v@);
            assert(sources@.take(s + 1).drop_last() =~= sources@.take(s as int));
            assert(sources@.take(s + 1).last() == v);
        }
        s = s + 1;
    }
    assert(sources@.take(sources.len() as int) =~= sources@);
    out
}

/// Manually entered hosts, the fallback when multicast is blocked: each resolved address once,
/// in the order first entered.
pub struct ManualHosts {
    hosts: Vec<PeerAddr>,
}

/// `h` extended by each address of `a` that it does not hold yet, in order.
pub open spec fn append_new(h: Seq<PeerAddr>, a: Seq<PeerAddr>) -> Seq<PeerAddr>
    decreases a.len(),
{
    if a.len() == 0 {
        h
    } else {
        let earlier = append_new(h, a.drop_last());
        if earlier.contains(a.last()) {
            earlier
        } else {
            earlier.push(a.last())
        }
    }
}

impl ManualHosts {
    pub closed spec fn view(&self) -> Seq<PeerAddr> {
        self.hosts@
    }

    pub fn new() -> (m: Self)
        ensures
            m.view() == Seq::<PeerAddr>::empty(),
    {
        ManualHosts { hosts: Vec::new() }
    }

    /// Add the addresses one host entry resolved to; `false` when it resolved to none.
    pub fn add_resolved(&mut self, addrs: &[PeerAddr]) -> (any: bool)
        ensures
            any == (addrs@.len() > 0),
            final(self).view() == append_new(old(self).view(), addrs@),
    {
        let mut i: usize = 0;
        while i < addrs.len()
            invariant
                i <= addrs.len(),
                self.view() == append_new(old(self).view(), addrs@.take(i as int)),
            decreases addrs.len() - i,
        {
            let a = addrs[i];
            let mut present = false;
            let mut j: usize = 0;
            while j < self.hosts.len()
                invariant
                    j <= self.hosts.len(),
                    present == exists|k: int| 0 <= k < j && self.hosts@[k] == a,
                decreases self.hosts.len() - j,
            {
                if self.hosts[j] == a {
                    present = true;
                }
                j = j + 1;
            }
            proof {
                assert(addrs@.take(i + 1).drop_last() =~= addrs@.take(i as int));
                assert(addrs@.take(i + 1).last() == a);
                if self.hosts@.contains(a) {
                    let k = choose|k: int| 0 <= k < self.hosts@.len() && self.hosts@[k] == a;
                    assert(present);
                }
            }
            if !present {
                self.hosts.push(a);
            }
            i = i + 1;
        }
        assert(addrs@.take(addrs.len() as int) =~= addrs@);
        addrs.len() > 0
    }

    pub fn len(&self) -> (n: usize)
        ensures
            n == self.view().len(),
    {
        self.hosts.len()
    }

    pub fn is_empty(&self) -> (b: bool)
        ensures
            b == (self.view().len() == 0),
    {
        self.hosts.len() == 0
    }

    /// The hosts as discovered peers: manual, id unknown until a handshake confirms it.
    pub fn peers(&self) -> (out: Vec<DiscoveredPeer>)
        ensures
            out@.len() == self.view().len(),
            forall|i: int| 0 <= i < out@.len() ==> #[trigger] out@[i]@ == (DiscoveredPeerView {
                peer_id: None,
                addr: self.view()[i],
                source: PeerSource::Manual,
            }),
    {
        let mut out: Vec<DiscoveredPeer> = Vec::new();
        let mut i: usize = 0;
        while i < self.hosts.len()
            invariant
                i <= self.hosts.len(),
                out@.len() == i,
                forall|k: int| 0 <= k < i ==> #[trigger] out@[k]@ == (DiscoveredPeerView {
                    peer_id: None,
                    addr: self.hosts@[k],
                    source: PeerSource::Manual,
                }),
            decreases self.hosts.len() - i,
        {
            out.push(DiscoveredPeer { peer_id: None, addr: self.hosts[i], source: PeerSource::Manual });
            i = i + 1;
        }
        out
    }
}

} // verus!
