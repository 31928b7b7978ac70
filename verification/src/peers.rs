//! Mesh peer presence / liveness registry, fed by `Announce` and `Heartbeat` messages. A peer
//! not seen within a TTL is treated as offline, which feeds the partition guard.

use crate::strmap::StrMap;
use crate::text::string_views;
use vstd::prelude::*;

verus! {

/// What we know about one peer from its last Announce/Heartbeat.
#[derive(Debug, Clone)]
pub struct PeerPresence {
    pub name: String,
    pub endpoints: Vec<String>,
    pub can_actuate: bool,
    pub state_version: u64,
    /// Node-clock milliseconds when we last heard from the peer.
    pub last_seen_ms: u64,
}

/// Seen within `ttl_ms` of `now_ms` (`now_ms.saturating_sub(last_seen) <= ttl_ms`).
pub open spec fn fresh(now_ms: u64, last_seen_ms: u64, ttl_ms: u64) -> bool {
    (if now_ms >= last_seen_ms { now_ms - last_seen_ms } else { 0 }) <= ttl_ms
}

fn is_fresh(now_ms: u64, last_seen_ms: u64, ttl_ms: u64) -> (b: bool)
    ensures
        b == fresh(now_ms, last_seen_ms, ttl_ms),
{
    now_ms.saturating_sub(last_seen_ms) <= ttl_ms
}

/// `after` is `before` with a heartbeat from `peer` applied: its state version and last-seen
/// time are updated; a known peer keeps its name, endpoints and capability, an unknown one gets a
/// minimal, non-actuating presence.
pub open spec fn heartbeat_applied(
    before: Map<Seq<char>, PeerPresence>,
    after: Map<Seq<char>, PeerPresence>,
    peer: Seq<char>,
    state_version: u64,
    now_ms: u64,
) -> bool {
    &&& after == before.insert(peer, after[peer])
    &&& after[peer].state_version == state_version
    &&& after[peer].last_seen_ms == now_ms
    &&& before.contains_key(peer) ==> {
        let p = before[peer];
        let q = after[peer];
        q.name == p.name && q.endpoints == p.endpoints && q.can_actuate == p.can_actuate
    }
    &&& !before.contains_key(peer) ==> {
        let q = after[peer];
        q.name@ == Seq::<char>::empty() && q.endpoints@.len() == 0 && !q.can_actuate
    }
}

/// Registry of peer presence keyed by peer id.
#[derive(Debug)]
pub struct PeerRegistry {
    peers: StrMap<PeerPresence>,
}

impl PeerRegistry {
    pub closed spec fn wf(&self) -> bool {
        self.peers.wf()
    }

    /// Peer id → presence.
    pub closed spec fn view(&self) -> Map<Seq<char>, PeerPresence> {
        self.peers@
    }

    pub fn new() -> (r: Self)
        ensures
            r.wf(),
            r@ == Map::<Seq<char>, PeerPresence>::empty(),
    {
        PeerRegistry { peers: StrMap::new() }
    }

    /// Record a full Announce (presence + addresses + capability). Announce carries the peer's
    /// whole presence, so it replaces any prior entry.
    pub fn observe_announce(
        &mut self,
        peer_id: &str,
        name: String,
        endpoints: Vec<String>,
        can_actuate: bool,
        state_version: u64,
        now_ms: u64,
    )
        requires
            old(self).wf(),
        ensures
            final(self).wf(),
            final(self)@ == old(self)@.insert(
                peer_id@,
                PeerPresence { name, endpoints, can_actuate, state_version, last_seen_ms: now_ms },
            ),
    {
        self.peers.insert(
            peer_id.to_owned(),
            PeerPresence { name, endpoints, can_actuate, state_version, last_seen_ms: now_ms },
        );
    }

    /// Record a Heartbeat (liveness only). If we never saw an Announce first, record minimal
    /// presence so the peer still counts as online. Name, endpoints and capability of a known
    /// peer are kept.
    pub fn observe_heartbeat(&mut self, peer_id: &str, state_version: u64, now_ms: u64)
        requires
            old(self).wf(),
        ensures
            final(self).wf(),
            heartbeat_applied(old(self)@, final(self)@, peer_id@, state_version, now_ms),
    {
        let entry = match self.peers.remove(peer_id) {
            Some(mut p) => {
                p.state_version = state_version;
                p.last_seen_ms = now_ms;
                p
            },
            None => PeerPresence {
                name: String::new(),
                endpoints: Vec::new(),
                can_actuate: false,
                state_version,
                last_seen_ms: now_ms,
            },
        };
        self.peers.insert(peer_id.to_owned(), entry);
        proof {
            assert(self@ =~= old(self)@.insert(peer_id@, self@[peer_id@]));
        }
    }

    pub fn get(&self, peer_id: &str) -> (r: Option<&PeerPresence>)
        requires
            self.wf(),
        ensures
            match r {
                Some(p) => self@.contains_key(peer_id@) && *p == self@[peer_id@],
                None => !self@.contains_key(peer_id@),
            },
    {
        self.peers.get(peer_id)
    }

    /// All known peer ids (any liveness), each once.
    pub fn ids(&self) -> (ids: Vec<String>)
        requires
            self.wf(),
        ensures
            string_views(ids@).no_duplicates(),
            forall|k: Seq<char>| #[trigger] string_views(ids@).contains(k) <==> self@.contains_key(k),
            ids@.len() == self@.len(),
    {
        let _ = self.peers.len();
        self.peers.keys()
    }

    pub fn last_seen_ms(&self, peer_id: &str) -> (r: Option<u64>)
        requires
            self.wf(),
        ensures
            r == (if self@.contains_key(peer_id@) { Some(self@[peer_id@].last_seen_ms) } else { None }),
    {
        match self.peers.get(peer_id) {
            Some(p) => Some(p.last_seen_ms),
            None => None,
        }
    }

    /// True if `peer_id` was seen within `ttl_ms` of `now_ms`.
    pub fn is_online(&self, peer_id: &str, now_ms: u64, ttl_ms: u64) -> (b: bool)
        requires
            self.wf(),
        ensures
            b == (self@.contains_key(peer_id@) && fresh(now_ms, self@[peer_id@].last_seen_ms, ttl_ms)),
    {
        match self.peers.get(peer_id) {
            Some(p) => is_fresh(now_ms, p.last_seen_ms, ttl_ms),
            None => false,
        }
    }

    /// Known peer ids whose freshness at `now_ms` is `want_fresh`.
    fn filter_ids(&self, now_ms: u64, ttl_ms: u64, want_fresh: bool) -> (ids: Vec<String>)
        requires
            self.wf(),
        ensures
            string_views(ids@).no_duplicates(),
            forall|k: Seq<char>| #[trigger] string_views(ids@).contains(k) <==> (self@.contains_key(k) && fresh(
                now_ms,
                self@[k].last_seen_ms,
                ttl_ms,
            ) == want_fresh),
    {
        let n = self.peers.len();
        let mut out: Vec<String> = Vec::new();
        let mut i: usize = 0;
        while i < n
            invariant
                self.wf(),
                n == self.peers.keys_view().len(),
                i <= n,
                self.peers.keys_view().no_duplicates(),
                forall|k: Seq<char>| #[trigger] self.peers@.contains_key(k) <==> self.peers.keys_view().contains(k),
                forall|j: int| 0 <= j < n ==> #[trigger] self.peers@[self.peers.keys_view()[j]] == self.peers.values_view()[j],
                string_views(out@).no_duplicates(),
                forall|k: Seq<char>| #[trigger] string_views(out@).contains(k) <==> (exists|j: int|
                    0 <= j < i && self.peers.keys_view()[j] == k) && self@.contains_key(k) && fresh(
                    now_ms,
                    self@[k].last_seen_ms,
                    ttl_ms,
                ) == want_fresh,
            decreases n - i,
        {
            let key = self.peers.key_at(i);
            let p = self.peers.value_at(i);
            let ghost kv = self.peers.keys_view();
            let ghost before = string_views(out@);
            let take = is_fresh(now_ms, p.last_seen_ms, ttl_ms) == want_fresh;
            if take {
                out.push(key.clone());
            }
            proof {
                let after = string_views(out@);
                assert(!before.contains(key@)) by {
                    if before.contains(key@) {
                        let j = choose|j: int| 0 <= j < i && kv[j] == key@;
                        assert(kv[j] == kv[i as int]);
                    }
                }
                if take {
                    assert(after =~= before.push(key@));
                } else {
                    assert(after =~= before);
                }
                assert forall|k: Seq<char>| #[trigger] after.contains(k) <==> (exists|j: int|
                    0 <= j < i + 1 && kv[j] == k) && self@.contains_key(k) && fresh(now_ms, self@[k].last_seen_ms, ttl_ms)
                    == want_fresh by {
                    if k == key@ {
                        assert(kv[i as int] == k);
                        if take {
                            assert(after[after.len() - 1] == k);
                        }
                    } else {
                        if exists|j: int| 0 <= j < i + 1 && kv[j] == k {
                            let j = choose|j: int| 0 <= j < i + 1 && kv[j] == k;
                            assert(j < i);
                        }
                        if after.contains(k) {
                            let c = choose|c: int| 0 <= c < after.len() && after[c] == k;
                            assert(before[c] == k);
                        }
                        if before.contains(k) {
                            let c = choose|c: int| 0 <= c < before.len() && before[c] == k;
                            assert(after[c] == k);
                        }
                    }
                }
                if take {
                    assert forall|a: int, b: int| 0 <= a < after.len() && 0 <= b < after.len() && a != b implies after[a]
                        != after[b] by {
                        if a < before.len() && b < before.len() {
                        } else if a < before.len() {
                            assert(before.contains(before[a]));
                        } else {
                            assert(before.contains(before[b]));
                        }
                    }
                }
            }
            i = i + 1;
        }
        proof {
            assert forall|k: Seq<char>| #[trigger] string_views(out@).contains(k) <==> (self@.contains_key(k) && fresh(
                now_ms,
                self@[k].last_seen_ms,
                ttl_ms,
            ) == want_fresh) by {
                if self@.contains_key(k) {
                    assert(self.peers.keys_view().contains(k));
                }
            }
        }
        out
    }

    /// Peer ids seen within `ttl_ms` of `now_ms` (the currently-online peers).
    pub fn online(&self, now_ms: u64, ttl_ms: u64) -> (ids: Vec<String>)
        requires
            self.wf(),
        ensures
            string_views(ids@).no_duplicates(),
            forall|k: Seq<char>| #[trigger] string_views(ids@).contains(k) <==> (self@.contains_key(k) && fresh(
                now_ms,
                self@[k].last_seen_ms,
                ttl_ms,
            )),
    {
        self.filter_ids(now_ms, ttl_ms, true)
    }

    /// Known peers NOT seen within `ttl_ms` of `now_ms` — believed lost.
    pub fn lost(&self, now_ms: u64, ttl_ms: u64) -> (ids: Vec<String>)
        requires
            self.wf(),
        ensures
            string_views(ids@).no_duplicates(),
            forall|k: Seq<char>| #[trigger] string_views(ids@).contains(k) <==> (self@.contains_key(k) && !fresh(
                now_ms,
                self@[k].last_seen_ms,
                ttl_ms,
            )),
    {
        self.filter_ids(now_ms, ttl_ms, false)
    }

    /// True if any known peer is currently lost — the mesh's degraded/partition signal. An empty
    /// registry is not degraded.
    pub fn is_degraded(&self, now_ms: u64, ttl_ms: u64) -> (b: bool)
        requires
            self.wf(),
        ensures
            b == exists|k: Seq<char>| #[trigger] self@.contains_key(k) && !fresh(now_ms, self@[k].last_seen_ms, ttl_ms),
    {
        let lost = self.lost(now_ms, ttl_ms);
        proof {
            if lost@.len() > 0 {
                assert(string_views(lost@).contains(string_views(lost@)[0]));
            }
            if exists|k: Seq<char>| #[trigger] self@.contains_key(k) && !fresh(now_ms, self@[k].last_seen_ms, ttl_ms) {
                let k = choose|k: Seq<char>| #[trigger] self@.contains_key(k) && !fresh(now_ms, self@[k].last_seen_ms, ttl_ms);
                assert(string_views(lost@).contains(k));
            }
        }
        lost.len() > 0
    }

    pub fn len(&self) -> (n: usize)
        requires
            self.wf(),
        ensures
            n == self@.len(),
    {
        self.peers.len()
    }

    pub fn is_empty(&self) -> (b: bool)
        requires
            self.wf(),
        ensures
            b == (self@.len() == 0),
    {
        self.peers.is_empty()
    }
}


/// One observation of `peer` took a registry viewed as `before` to `after`: an Announce (a
/// presence recorded under the id) or a Heartbeat.
pub open spec fn observed(before: Map<Seq<char>, PeerPresence>, after: Map<Seq<char>, PeerPresence>, peer: Seq<char>) -> bool {
    ||| exists|p: PeerPresence| after == #[trigger] before.insert(peer, p)
    ||| exists|v: u64, t: u64| #[trigger] heartbeat_applied(before, after, peer, v, t)
}

/// Over any history of Announces and Heartbeats on a new registry, the registry holds exactly
/// the peer ids that were observed (so `ids` lists each of them once, and nothing else).
pub proof fn lemma_registry_holds_observed_ids(states: Seq<Map<Seq<char>, PeerPresence>>, peers: Seq<Seq<char>>)
    requires
        states.len() == peers.len() + 1,
        states[0] == Map::<Seq<char>, PeerPresence>::empty(),
        forall|i: int| 0 <= i < peers.len() ==> observed(states[i], states[i + 1], #[trigger] peers[i]),
    ensures
        forall|k: Seq<char>| #[trigger] states.last().contains_key(k) <==> peers.contains(k),
    decreases peers.len(),
{
    if peers.len() > 0 {
        let n = peers.len() - 1;
        let pre_states = states.drop_last();
        let pre_peers = peers.drop_last();
        assert forall|i: int| 0 <= i < pre_peers.len() implies observed(pre_states[i], pre_states[i + 1], #[trigger] pre_peers[i]) by {
            assert(pre_peers[i] == peers[i]);
        }
        lemma_registry_holds_observed_ids(pre_states, pre_peers);
        let before = states[n];
        let after = states[n + 1];
        assert(observed(before, after, peers[n]));
        assert(after.dom() =~= before.dom().insert(peers[n]));
        assert(pre_states.last() == before);
        assert forall|k: Seq<char>| #[trigger] states.last().contains_key(k) <==> peers.contains(k) by {
            if pre_peers.contains(k) {
                let j = choose|j: int| 0 <= j < pre_peers.len() && pre_peers[j] == k;
                assert(peers[j] == k);
            }
            if peers.contains(k) {
                let j = choose|j: int| 0 <= j < peers.len() && peers[j] == k;
                if j < n {
                    assert(pre_peers[j] == k);
                }
            }
            if k == peers[n] {
                assert(peers.contains(k));
            }
        }
    }
}

} // verus!
