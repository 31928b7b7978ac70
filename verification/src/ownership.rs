//! Last-writer-wins ownership map. Gossip and local observations both flow through
//! [`OwnershipMap::merge`]; the newest `updated_ms` wins and ties keep the existing record.
//!
//! `updated_ms` must be a cross-peer-comparable wall-clock timestamp (UTC ms). The panel's live
//! `0x60` is ground truth; this map is a cache of it.

use crate::strmap::StrMap;
use vstd::prelude::*;

verus! {

/// Distinct ownership states. `owner == None` alone is ambiguous; this disambiguates the cases
/// that UX and reconciliation care about.
#[derive(Debug, Clone, Copy, PartialEq, Eq, Structural)]
pub enum OwnershipState {
    /// A peer is the believed live source.
    Owned,
    /// Never observed / unowned — a transient "we don't know yet" state.
    Unknown,
    /// The owner is unreachable and no online peer can read the panel (physical button only).
    Stranded,
    /// DDC/CI is disabled in the monitor's OSD: neither readable nor switchable over the wire.
    DdcDisabled,
}

/// Who currently drives a monitor, with the timestamp the fact was established.
#[derive(Debug, PartialEq, Eq)]
pub struct OwnershipRecord {
    pub owner: Option<String>,
    pub updated_ms: u64,
    pub state: OwnershipState,
}

impl Clone for OwnershipRecord {
    fn clone(&self) -> (r: Self)
        ensures
            r == *self,
    {
        OwnershipRecord {
            owner: match &self.owner {
                Some(o) => Some(o.clone()),
                None => None,
            },
            updated_ms: self.updated_ms,
            state: self.state,
        }
    }
}

/// Mathematical view of an ownership record.
pub struct RecordView {
    pub owner: Option<Seq<char>>,
    pub updated_ms: u64,
    pub state: OwnershipState,
}

pub open spec fn opt_view(o: Option<String>) -> Option<Seq<char>> {
    match o {
        Some(s) => Some(s@),
        None => None,
    }
}

impl View for OwnershipRecord {
    type V = RecordView;

    open spec fn view(&self) -> RecordView {
        RecordView { owner: opt_view(self.owner), updated_ms: self.updated_ms, state: self.state }
    }
}

/// Last-writer-wins application of one record: strictly newer replaces, otherwise unchanged.
pub open spec fn apply_spec(map: Map<Seq<char>, RecordView>, monitor: Seq<char>, r: RecordView) -> Map<Seq<char>, RecordView> {
    if map.contains_key(monitor) && map[monitor].updated_ms >= r.updated_ms {
        map
    } else {
        map.insert(monitor, r)
    }
}

/// The record a gossiped/observed owner fact produces.
pub open spec fn gossip_record(owner: Option<Seq<char>>, updated_ms: u64) -> RecordView {
    RecordView {
        owner,
        updated_ms,
        state: if owner is Some { OwnershipState::Owned } else { OwnershipState::Unknown },
    }
}

/// Convergence: two facts with distinct timestamps (or about distinct monitors) can be applied in
/// either order with the same result, so peers that receive the same gossip in different orders
/// agree.
pub proof fn lemma_apply_commutes(
    map: Map<Seq<char>, RecordView>,
    m1: Seq<char>,
    r1: RecordView,
    m2: Seq<char>,
    r2: RecordView,
)
    requires
        m1 != m2 || r1.updated_ms != r2.updated_ms,
    ensures
        apply_spec(apply_spec(map, m1, r1), m2, r2) == apply_spec(apply_spec(map, m2, r2), m1, r1),
{
    assert(apply_spec(apply_spec(map, m1, r1), m2, r2) =~= apply_spec(apply_spec(map, m2, r2), m1, r1));
}

/// Idempotence: applying the same fact twice is the same as applying it once.
pub proof fn lemma_apply_idempotent(map: Map<Seq<char>, RecordView>, m: Seq<char>, r: RecordView)
    ensures
        apply_spec(apply_spec(map, m, r), m, r) == apply_spec(map, m, r),
{
}

/// Newest wins: after applying a fact, the monitor's timestamp is the maximum of the old one and
/// the fact's, and a strictly newer fact is what is recorded.
pub proof fn lemma_apply_newest_wins(map: Map<Seq<char>, RecordView>, m: Seq<char>, r: RecordView)
    ensures
        apply_spec(map, m, r).contains_key(m),
        apply_spec(map, m, r)[m].updated_ms >= r.updated_ms,
        map.contains_key(m) ==> apply_spec(map, m, r)[m].updated_ms >= map[m].updated_ms,
        (!map.contains_key(m) || map[m].updated_ms < r.updated_ms) ==> apply_spec(map, m, r)[m] == r,
{
}

/// Last-writer-wins ownership map.
#[derive(Debug)]
pub struct OwnershipMap {
    records: StrMap<OwnershipRecord>,
}

impl OwnershipMap {
    pub closed spec fn wf(&self) -> bool {
        self.records.wf()
    }

    /// Monitor → record.
    pub closed spec fn view(&self) -> Map<Seq<char>, RecordView> {
        self.records@.map_values(|r: OwnershipRecord| r@)
    }

    pub fn new() -> (m: Self)
        ensures
            m.wf(),
            m@ == Map::<Seq<char>, RecordView>::empty(),
    {
        let m = OwnershipMap { records: StrMap::new() };
        assert(m@ =~= Map::<Seq<char>, RecordView>::empty());
        m
    }

    fn apply(&mut self, monitor: &str, owner: Option<String>, updated_ms: u64, state: OwnershipState) -> (changed: bool)
        requires
            old(self).wf(),
        ensures
            final(self).wf(),
            final(self)@ == apply_spec(old(self)@, monitor@, RecordView { owner: opt_view(owner), updated_ms, state }),
            changed == (final(self)@ != old(self)@ || !(old(self)@.contains_key(monitor@) && old(self)@[monitor@].updated_ms >= updated_ms)),
    {
        match self.records.get(monitor) {
            Some(existing) => {
                if existing.updated_ms >= updated_ms {
                    return false;
                }
            },
            None => {},
        }
        let rec = OwnershipRecord { owner, updated_ms, state };
        self.records.insert(monitor.to_owned(), rec);
        proof {
            assert(self@ =~= old(self)@.insert(monitor@, rec@));
        }
        true
    }

    /// Apply a gossiped record. Returns true if it was strictly newer than what we held (ties keep
    /// the existing record).
    pub fn merge(&mut self, monitor: &str, owner: Option<String>, updated_ms: u64) -> (changed: bool)
        requires
            old(self).wf(),
        ensures
            final(self).wf(),
            final(self)@ == apply_spec(old(self)@, monitor@, gossip_record(opt_view(owner), updated_ms)),
            changed == !(old(self)@.contains_key(monitor@) && old(self)@[monitor@].updated_ms >= updated_ms),
    {
        let state = if owner.is_some() {
            OwnershipState::Owned
        } else {
            OwnershipState::Unknown
        };
        self.apply(monitor, owner, updated_ms, state)
    }

    /// Reconcile from a live `0x60` observation taken at `now_ms` (wall-clock ms). A fresh
    /// observation carries the latest timestamp, so the observed hardware truth wins.
    pub fn observe(&mut self, monitor: &str, owner: Option<String>, now_ms: u64) -> (changed: bool)
        requires
            old(self).wf(),
        ensures
            final(self).wf(),
            final(self)@ == apply_spec(old(self)@, monitor@, gossip_record(opt_view(owner), now_ms)),
            changed == !(old(self)@.contains_key(monitor@) && old(self)@[monitor@].updated_ms >= now_ms),
    {
        self.merge(monitor, owner, now_ms)
    }

    /// Mark a monitor stranded: persistent until a fresh observation supersedes it.
    pub fn mark_stranded(&mut self, monitor: &str, now_ms: u64) -> (changed: bool)
        requires
            old(self).wf(),
        ensures
            final(self).wf(),
            final(self)@ == apply_spec(old(self)@, monitor@, RecordView { owner: None, updated_ms: now_ms, state: OwnershipState::Stranded }),
            changed == !(old(self)@.contains_key(monitor@) && old(self)@[monitor@].updated_ms >= now_ms),
    {
        self.apply(monitor, None, now_ms, OwnershipState::Stranded)
    }

    /// Mark a monitor DDC-disabled: persistent until a fresh observation supersedes it.
    pub fn mark_ddc_disabled(&mut self, monitor: &str, now_ms: u64) -> (changed: bool)
        requires
            old(self).wf(),
        ensures
            final(self).wf(),
            final(self)@ == apply_spec(old(self)@, monitor@, RecordView { owner: None, updated_ms: now_ms, state: OwnershipState::DdcDisabled }),
            changed == !(old(self)@.contains_key(monitor@) && old(self)@[monitor@].updated_ms >= now_ms),
    {
        self.apply(monitor, None, now_ms, OwnershipState::DdcDisabled)
    }

    /// Current believed owner of a monitor, if known and non-empty.
    pub fn owner(&self, monitor: &str) -> (o: Option<&str>)
        requires
            self.wf(),
        ensures
            match o {
                Some(s) => self@.contains_key(monitor@) && self@[monitor@].owner == Some(s@),
                None => !self@.contains_key(monitor@) || self@[monitor@].owner is None,
            },
    {
        match self.records.get(monitor) {
            Some(r) => match &r.owner {
                Some(o) => Some(o.as_str()),
                None => None,
            },
            None => None,
        }
    }

    /// The distinct ownership state of a monitor (`Unknown` if never seen).
    pub fn state(&self, monitor: &str) -> (s: OwnershipState)
        requires
            self.wf(),
        ensures
            s == (if self@.contains_key(monitor@) { self@[monitor@].state } else { OwnershipState::Unknown }),
    {
        match self.records.get(monitor) {
            Some(r) => r.state,
            None => OwnershipState::Unknown,
        }
    }

    pub fn record(&self, monitor: &str) -> (r: Option<&OwnershipRecord>)
        requires
            self.wf(),
        ensures
            match r {
                Some(rec) => self@.contains_key(monitor@) && rec@ == self@[monitor@],
                None => !self@.contains_key(monitor@),
            },
    {
        self.records.get(monitor)
    }

    /// Every (monitor, record) pair, each monitor once.
    pub fn snapshot(&self) -> (out: Vec<(String, OwnershipRecord)>)
        requires
            self.wf(),
        ensures
            out@.len() == self@.len(),
            forall|i: int| 0 <= i < out@.len() ==> self@.contains_key(#[trigger] out@[i].0@) && self@[out@[i].0@] == out@[i].1@,
            forall|m: Seq<char>| #[trigger] self@.contains_key(m) ==> exists|i: int| 0 <= i < out@.len() && out@[i].0@ == m,
            forall|i: int, j: int| 0 <= i < j < out@.len() ==> out@[i].0@ != out@[j].0@,
    {
        let n = self.records.len();
        proof {
            assert(self@.dom() =~= self.records@.dom());
        }
        let mut out: Vec<(String, OwnershipRecord)> = Vec::new();
        let mut i: usize = 0;
        while i < n
            invariant
                self.wf(),
                n == self.records.keys_view().len(),
                n == self@.len(),
                i <= n,
                out@.len() == i,
                self.records.keys_view().no_duplicates(),
                forall|k: Seq<char>| #[trigger] self.records@.contains_key(k) <==> self.records.keys_view().contains(k),
                forall|j: int| #![trigger out@[j]] 0 <= j < i ==> out@[j].0@ == self.records.keys_view()[j] && self@.contains_key(out@[j].0@) && self@[out@[j].0@] == out@[j].1@,
            decreases n - i,
        {
            let k = self.records.key_at(i);
            let v = self.records.value_at(i);
            let ghost prev = out@;
            out.push((k.clone(), v.clone()));
            proof {
                assert(self@[k@] == self.records@[k@]@);
                assert forall|j: int| #![trigger out@[j]] 0 <= j < i + 1 implies out@[j].0@ == self.records.keys_view()[j] && self@.contains_key(out@[j].0@) && self@[out@[j].0@] == out@[j].1@ by {
                    if j < i {
                        assert(out@[j] == prev[j]);
                    }
                }
            }
            i = i + 1;
        }
        proof {
            assert forall|m: Seq<char>| #[trigger] self@.contains_key(m) implies exists|i: int| 0 <= i < out@.len() && out@[i].0@ == m by {
                assert(self.records@.contains_key(m));
                let j = choose|j: int| 0 <= j < self.records.keys_view().len() && self.records.keys_view()[j] == m;
                assert(out@[j].0@ == m);
            }
            assert forall|a: int, b: int| 0 <= a < b < out@.len() implies out@[a].0@ != out@[b].0@ by {
                assert(self.records.keys_view()[a] != self.records.keys_view()[b]);
            }
        }
        out
    }
}

} // verus!
