//! The live agent's decisions: what it announces, which ownership facts it gossips, and how it
//! records the result of a switch it routed to another peer.

use crate::discovery::{found_in, merge, merged_from, peer_views, DiscoveredPeer, DiscoveredPeerView, PeerAddr};
use crate::mesh::{outcome_code_spec, MeshState};
use crate::message::Message;
use crate::ownership::{apply_spec, gossip_record, opt_view, OwnershipState, RecordView};
use crate::strmap::StrMap;
use crate::text::str_eq;
use crate::types::{effective_success, SwitchOutcome};
use vstd::prelude::*;

verus! {

/// A UI-originated intent, handed to the agent worker so the UI thread never blocks on mesh I/O.
#[derive(Debug, Clone, PartialEq, Eq)]
pub enum UiIntent {
    /// Make `target_peer_id` the active source on `monitor_id` (pull-to-self, routed to the target).
    Switch { monitor_id: String, target_peer_id: String },
}

/// The presence this node announces: its name, its one reachable endpoint, and whether it may
/// actuate.
pub fn announce_message(name: &str, endpoint: String, can_actuate: bool) -> (m: Message)
    ensures
        m matches Message::Announce { name: n, endpoints, can_actuate: c, state_version } && n@ == name@
            && endpoints@ == seq![endpoint] && c == can_actuate && state_version == 0,
{
    let mut endpoints: Vec<String> = Vec::new();
    endpoints.push(endpoint);
    Message::Announce { name: name.to_owned(), endpoints, can_actuate, state_version: 0 }
}

/// The gossip message for one owned record.
pub open spec fn is_gossip_of(m: Message, monitor: Seq<char>, r: RecordView) -> bool {
    m matches Message::OwnershipGossip { monitor_id, owner, updated_ms } && monitor_id@ == monitor && opt_view(owner)
        == r.owner && updated_ms == r.updated_ms
}

/// The monitor a gossip message is about.
pub open spec fn gossip_monitor(m: Message) -> Seq<char> {
    match m {
        Message::OwnershipGossip { monitor_id, .. } => monitor_id@,
        _ => seq![],
    }
}

/// The positive ownership facts to replicate: one `OwnershipGossip` for every monitor whose
/// state is `Owned`, and nothing for unknown, stranded or DDC-disabled panels (those are local
/// observations, not facts another peer should adopt).
pub fn ownership_gossip_snapshot(state: &MeshState) -> (out: Vec<Message>)
    requires
        state.wf(),
    ensures
        forall|i: int| #![trigger out@[i]]
            0 <= i < out@.len() ==> {
                let m = gossip_monitor(out@[i]);
                &&& state.ownership@.contains_key(m)
                &&& state.ownership@[m].state == OwnershipState::Owned
                &&& is_gossip_of(out@[i], m, state.ownership@[m])
            },
        forall|k: Seq<char>| #[trigger] state.ownership@.contains_key(k) && state.ownership@[k].state == OwnershipState::Owned
            ==> exists|i: int| 0 <= i < out@.len() && gossip_monitor(out@[i]) == k,
        forall|i: int, j: int| 0 <= i < j < out@.len() ==> gossip_monitor(out@[i]) != gossip_monitor(out@[j]),
{
    let snap = state.ownership.snapshot();
    let mut out: Vec<Message> = Vec::new();
    let ghost mut src: Seq<int> = seq![];
    let mut i: usize = 0;
    while i < snap.len()
        invariant
            state.wf(),
            i <= snap@.len(),
            snap@.len() == state.ownership@.len(),
            forall|a: int| 0 <= a < snap@.len() ==> state.ownership@.contains_key(#[trigger] snap@[a].0@)
                && state.ownership@[snap@[a].0@] == snap@[a].1@,
            forall|k: Seq<char>| #[trigger] state.ownership@.contains_key(k) ==> exists|a: int|
                0 <= a < snap@.len() && snap@[a].0@ == k,
            forall|a: int, b: int| 0 <= a < b < snap@.len() ==> snap@[a].0@ != snap@[b].0@,
            src.len() == out@.len(),
            forall|c: int| 0 <= c < src.len() ==> 0 <= #[trigger] src[c] < i && gossip_monitor(out@[c]) == snap@[src[c]].0@
                && is_gossip_of(out@[c], snap@[src[c]].0@, snap@[src[c]].1@) && snap@[src[c]].1@.state == OwnershipState::Owned,
            forall|c: int, d: int| 0 <= c < d < src.len() ==> src[c] < src[d],
            forall|a: int| 0 <= a < i && #[trigger] snap@[a].1@.state == OwnershipState::Owned ==> exists|c: int|
                0 <= c < src.len() && src[c] == a,
        decreases snap@.len() - i,
    {
        let entry = &snap[i];
        if entry.1.state == OwnershipState::Owned {
            let owner = match &entry.1.owner {
                Some(o) => Some(o.clone()),
                None => None,
            };
            let ghost prev = out@;
            out.push(Message::OwnershipGossip { monitor_id: entry.0.clone(), owner, updated_ms: entry.1.updated_ms });
            proof {
                assert forall|c: int| 0 <= c < src.len() implies out@[c] == prev[c] by {}
                let old_src = src;
                src = src.push(i as int);
                assert forall|a: int| 0 <= a < i + 1 && #[trigger] snap@[a].1@.state == OwnershipState::Owned implies exists|c: int|
                    0 <= c < src.len() && src[c] == a by {
                    if a == i {
                        assert(src[src.len() - 1] == a);
                    } else {
                        let c = choose|c: int| 0 <= c < old_src.len() && old_src[c] == a;
                        assert(src[c] == old_src[c]);
                    }
                }
            }
        }
        i = i + 1;
    }
    proof {
        assert forall|i: int| #![trigger out@[i]] 0 <= i < out@.len() implies {
            let m = gossip_monitor(out@[i]);
            &&& state.ownership@.contains_key(m)
            &&& state.ownership@[m].state == OwnershipState::Owned
            &&& is_gossip_of(out@[i], m, state.ownership@[m])
        } by {
            assert(0 <= src[i] < snap@.len());
        }
        assert forall|k: Seq<char>| #[trigger] state.ownership@.contains_key(k) && state.ownership@[k].state
            == OwnershipState::Owned implies exists|i: int| 0 <= i < out@.len() && gossip_monitor(out@[i]) == k by {
            let a = choose|a: int| 0 <= a < snap@.len() && snap@[a].0@ == k;
            assert(snap@[a].1@.state == OwnershipState::Owned);
            let c = choose|c: int| 0 <= c < src.len() && src[c] == a;
            assert(gossip_monitor(out@[c]) == k);
        }
        assert forall|i: int, j: int| 0 <= i < j < out@.len() implies gossip_monitor(out@[i]) != gossip_monitor(out@[j]) by {
            assert(src[i] < src[j]);
        }
    }
    out
}

/// Whether a switch result code means the monitor most likely switched.
pub open spec fn success_code(outcome: Seq<char>) -> bool {
    outcome == "success"@ || outcome == "assumed-success"@
}

/// Record the result of a switch this node routed to `target_peer_id`: an effective success
/// makes the target the observed owner at `updated_ms`; any other code (including
/// `ddc-unavailable`, which says nothing about who drives the panel) changes nothing.
pub fn record_switch_result(state: &mut MeshState, monitor_id: &str, target_peer_id: &str, outcome: &str, updated_ms: u64)
    requires
        old(state).wf(),
    ensures
        final(state).wf(),
        final(state).locks@ == old(state).locks@,
        final(state).peers@ == old(state).peers@,
        final(state).pins@ == old(state).pins@,
        final(state).ownership@ == (if success_code(outcome@) {
            apply_spec(old(state).ownership@, monitor_id@, gossip_record(Some(target_peer_id@), updated_ms))
        } else {
            old(state).ownership@
        }),
{
    if str_eq(outcome, "success") || str_eq(outcome, "assumed-success") {
        state.ownership.observe(monitor_id, Some(target_peer_id.to_owned()), updated_ms);
    }
}

/// Where a switch for `target` is sent: this node routes to itself over its own listening
/// address (so the same lease, actuation and reconcile path runs for local switches); another
/// peer is reached at the last address learned for it, if any.
pub fn resolve_target(me: &str, self_addr: PeerAddr, peer_addrs: &StrMap<PeerAddr>, target: &str) -> (r: Option<PeerAddr>)
    requires
        peer_addrs.wf(),
    ensures
        target@ == me@ ==> r == Some(self_addr),
        target@ != me@ ==> r == (if peer_addrs@.contains_key(target@) { Some(peer_addrs@[target@]) } else { None::<PeerAddr> }),
{
    if str_eq(target, me) {
        Some(self_addr)
    } else {
        match peer_addrs.get(target) {
            Some(a) => Some(*a),
            None => None,
        }
    }
}

/// This node itself, as a discovery result: reached at its own address, or advertising its id.
pub open spec fn self_candidate(p: DiscoveredPeerView, me: Seq<char>, self_addr: PeerAddr) -> bool {
    p.addr == self_addr || p.peer_id == Some(me)
}

pub fn is_self_candidate(candidate: &DiscoveredPeer, me: &str, self_addr: PeerAddr) -> (b: bool)
    ensures
        b == self_candidate(candidate@, me@, self_addr),
{
    if candidate.addr == self_addr {
        return true;
    }
    match &candidate.peer_id {
        Some(id) => str_eq(id.as_str(), me),
        None => false,
    }
}

/// The peers one sync pass contacts: the merged discovery results, in address order, without
/// this node itself.
pub fn sync_candidates(sources: &[Vec<DiscoveredPeer>], me: &str, self_addr: PeerAddr) -> (out: Vec<DiscoveredPeer>)
    ensures
        exists|all: Seq<DiscoveredPeerView>|
            merged_from(all, found_in(sources@)) && peer_views(out@) == all.filter(
                |p: DiscoveredPeerView| !self_candidate(p, me@, self_addr),
            ),
{
    let merged = merge(sources);
    let ghost all = peer_views(merged@);
    let ghost keep = |p: DiscoveredPeerView| !self_candidate(p, me@, self_addr);
    let mut out: Vec<DiscoveredPeer> = Vec::new();
    let mut i: usize = 0;
    assert(all.take(0).filter(keep) =~= seq![]);
    assert(peer_views(out@) =~= seq![]);
    while i < merged.len()
        invariant
            i <= merged.len(),
            all == peer_views(merged@),
            keep == (|p: DiscoveredPeerView| !self_candidate(p, me@, self_addr)),
            peer_views(out@) == all.take(i as int).filter(keep),
        decreases merged.len() - i,
    {
        let p = &merged[i];
        let ghost pv = all[i as int];
        let ghost before = peer_views(out@);
        assert(pv == p@);
        if !is_self_candidate(p, me, self_addr) {
            out.push(p.clone());
            assert(peer_views(out@) =~= before.push(pv));
        } else {
            assert(peer_views(out@) =~= before);
        }
        proof {
            assert(all.take(i + 1).filter(keep) == (if keep(pv) {
                all.take(i as int).filter(keep).push(pv)
            } else {
                all.take(i as int).filter(keep)
            })) by {
                all.take(i as int).lemma_filter_push(pv, keep);
                assert(all.take(i as int).push(pv) =~= all.take(i + 1));
            }
            assert(peer_views(out@) =~= all.take(i + 1).filter(keep));
        }
        i = i + 1;
    }
    assert(all.take(merged.len() as int) =~= all);
    out
}

/// The command that asks `target` to switch `monitor_id` to itself. The input value is advisory
/// only: the actuating peer writes its own calibrated value.
pub fn switch_command(monitor_id: &str, target: &str) -> (m: Message)
    ensures
        m matches Message::SwitchCommand { monitor_id: mid, target: t, input_value } && mid@ == monitor_id@
            && t@ == target@ && input_value == 0,
{
    Message::SwitchCommand { monitor_id: monitor_id.to_owned(), target: target.to_owned(), input_value: 0 }
}


/// The wire code of a switch outcome is a success code exactly when the outcome is an effective
/// success (so the requesting peer records a new owner only for a switch that took), and
/// different outcomes get different codes.
pub proof fn lemma_outcome_code_success_iff_effective(o: SwitchOutcome, other: SwitchOutcome)
    ensures
        success_code(outcome_code_spec(o)) <==> effective_success(o),
        o != other ==> outcome_code_spec(o) != outcome_code_spec(other),
{
    reveal_strlit("success");
    reveal_strlit("assumed-success");
    reveal_strlit("failed");
    reveal_strlit("blocked-value");
    reveal_strlit("needs-calibration");
    reveal_strlit("ddc-unavailable");
    reveal_strlit("unsupported");
    let a = outcome_code_spec(o);
    let b = outcome_code_spec(other);
    if o != other {
        if a.len() == b.len() {
            assert(a[0] != b[0] || a[1] != b[1] || a[2] != b[2]);
        }
    }
    if !effective_success(o) {
        assert(a.len() != 7 || a[0] != 's');
        assert(a.len() != 15 || a[0] != 'a');
    }
}

} // verus!
