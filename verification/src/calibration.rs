//! Per-`(peer, monitor)` confirmed `0x60` input values.
//!
//! A value is the selector for *one peer's own cable* on a panel and is never shared with or
//! used by another peer. A peer that has never been the active source on a panel has no value
//! here — the "value unknown until first active" state.

use std::collections::HashSet;
use crate::strmap::StrMap;
use crate::text::{chars_lt, lemma_chars_lt_total, lemma_chars_lt_transitive, str_lt};
use vstd::prelude::*;

verus! {

broadcast use vstd::std_specs::hash::group_hash_axioms;

/// Nested `peer -> monitor -> value` store, viewed as a map keyed by `(peer, monitor)`.
#[derive(Debug)]
pub struct CalibrationStore {
    values: StrMap<StrMap<u32>>,
}

/// True when `peer` has `value` confirmed for `monitor` in `m`.
pub open spec fn holds_value(m: Map<(Seq<char>, Seq<char>), u32>, peer: Seq<char>, monitor: Seq<char>, value: u32) -> bool {
    m.contains_key((peer, monitor)) && m[(peer, monitor)] == value
}

impl CalibrationStore {
    pub closed spec fn wf(&self) -> bool {
        &&& self.values.wf()
        &&& forall|p: Seq<char>| #[trigger] self.values@.contains_key(p) ==> self.values@[p].wf()
    }

    /// `(peer, monitor) -> value`.
    pub closed spec fn view(&self) -> Map<(Seq<char>, Seq<char>), u32> {
        Map::new(
            |k: (Seq<char>, Seq<char>)| self.values@.contains_key(k.0) && self.values@[k.0]@.contains_key(k.1),
            |k: (Seq<char>, Seq<char>)| self.values@[k.0]@[k.1],
        )
    }

    pub fn new() -> (s: Self)
        ensures
            s.wf(),
            s@ == Map::<(Seq<char>, Seq<char>), u32>::empty(),
    {
        let s = CalibrationStore { values: StrMap::new() };
        assert(s@ =~= Map::<(Seq<char>, Seq<char>), u32>::empty());
        s
    }

    /// Record this peer's own confirmed input value for a monitor (learned while it was active).
    pub fn record(&mut self, peer_id: &str, monitor_id: &str, input_value: u32)
        requires
            old(self).wf(),
        ensures
            final(self).wf(),
            final(self)@ == old(self)@.insert((peer_id@, monitor_id@), input_value),
    {
        let ghost before = self.values@;
        let mut inner = match self.values.remove(peer_id) {
            Some(m) => m,
            None => StrMap::new(),
        };
        let ghost inner_before = inner@;
        inner.insert(monitor_id.to_owned(), input_value);
        self.values.insert(peer_id.to_owned(), inner);
        proof {
            assert forall|p: Seq<char>| #[trigger] self.values@.contains_key(p) implies self.values@[p].wf() by {
                if p != peer_id@ {
                    assert(before.contains_key(p));
                }
            }
            assert forall|k: (Seq<char>, Seq<char>)|
                #[trigger] self@.contains_key(k) == old(self)@.insert((peer_id@, monitor_id@), input_value).contains_key(k) by {
                if k.0 == peer_id@ {
                    if before.contains_key(k.0) {
                        assert(inner_before == before[k.0]@);
                    }
                }
            }
            assert forall|k: (Seq<char>, Seq<char>)| #[trigger] self@.contains_key(k) implies self@[k]
                == old(self)@.insert((peer_id@, monitor_id@), input_value)[k] by {
                if k.0 == peer_id@ {
                    if before.contains_key(k.0) {
                        assert(inner_before == before[k.0]@);
                    }
                }
            }
            assert(self@ =~= old(self)@.insert((peer_id@, monitor_id@), input_value));
        }
    }

    /// Every recorded `(peer, monitor, value)`, peer by peer in the order first recorded (for
    /// persisting the store).
    pub fn entries(&self) -> (out: Vec<(String, String, u32)>)
        requires
            self.wf(),
        ensures
            forall|i: int| 0 <= i < out@.len() ==> holds_value(self@, (#[trigger] out@[i]).0@, out@[i].1@, out@[i].2),
            forall|p: Seq<char>, m: Seq<char>| #[trigger] self@.contains_key((p, m)) ==> exists|i: int|
                0 <= i < out@.len() && out@[i].0@ == p && out@[i].1@ == m,
    {
        let mut out: Vec<(String, String, u32)> = Vec::new();
        let n = self.values.len();
        let mut i: usize = 0;
        while i < n
            invariant
                self.wf(),
                n == self.values.keys_view().len(),
                i <= n,
                forall|k: Seq<char>| #[trigger] self.values@.contains_key(k) <==> self.values.keys_view().contains(k),
                forall|j: int| 0 <= j < n ==> #[trigger] self.values@[self.values.keys_view()[j]] == self.values.values_view()[j],
                forall|e: int| 0 <= e < out@.len() ==> holds_value(self@, (#[trigger] out@[e]).0@, out@[e].1@, out@[e].2),
                forall|j: int, m: Seq<char>| 0 <= j < i && #[trigger] self@.contains_key((self.values.keys_view()[j], m)) ==> exists|e: int|
                    0 <= e < out@.len() && out@[e].0@ == self.values.keys_view()[j] && out@[e].1@ == m,
            decreases n - i,
        {
            let peer = self.values.key_at(i);
            let inner = self.values.value_at(i);
            let ghost pk = self.values.keys_view()[i as int];
            assert(self.values@.contains_key(pk));
            assert(inner.wf());
            let inner_n = inner.len();
            let ghost out_before = out@;
            let mut t: usize = 0;
            while t < inner_n
                invariant
                    self.wf(),
                    n == self.values.keys_view().len(),
                    i < n,
                    pk == self.values.keys_view()[i as int],
                    peer@ == pk,
                    *inner == self.values@[pk],
                    self.values@.contains_key(pk),
                    inner.wf(),
                    inner_n == inner.keys_view().len(),
                    t <= inner_n,
                    forall|k: Seq<char>| #[trigger] inner@.contains_key(k) <==> inner.keys_view().contains(k),
                    forall|j: int| 0 <= j < inner_n ==> #[trigger] inner@[inner.keys_view()[j]] == inner.values_view()[j],
                    out_before.len() <= out@.len(),
                    forall|e: int| 0 <= e < out_before.len() ==> out@[e] == #[trigger] out_before[e],
                    forall|e: int| 0 <= e < out@.len() ==> holds_value(self@, (#[trigger] out@[e]).0@, out@[e].1@, out@[e].2),
                    forall|j: int| 0 <= j < t ==> exists|e: int|
                        0 <= e < out@.len() && out@[e].0@ == pk && out@[e].1@ == #[trigger] inner.keys_view()[j],
                decreases inner_n - t,
            {
                let monitor = inner.key_at(t);
                let value = *inner.value_at(t);
                let ghost before = out@;
                out.push((peer.clone(), monitor.clone(), value));
                proof {
                    assert(out@[before.len() as int].1@ == inner.keys_view()[t as int]);
                    assert forall|j: int| 0 <= j < t + 1 implies exists|e: int|
                        0 <= e < out@.len() && out@[e].0@ == pk && out@[e].1@ == #[trigger] inner.keys_view()[j] by {
                        if j < t {
                            let e = choose|e: int| 0 <= e < before.len() && before[e].0@ == pk && before[e].1@ == inner.keys_view()[j];
                            assert(out@[e] == before[e]);
                        } else {
                            assert(out@[before.len() as int].0@ == pk);
                        }
                    }
                }
                t = t + 1;
            }
            proof {
                assert forall|j: int, m: Seq<char>| 0 <= j < i + 1 && #[trigger] self@.contains_key((self.values.keys_view()[j], m)) implies exists|e: int|
                    0 <= e < out@.len() && out@[e].0@ == self.values.keys_view()[j] && out@[e].1@ == m by {
                    if j < i {
                        let e = choose|e: int| 0 <= e < out_before.len() && out_before[e].0@ == self.values.keys_view()[j] && out_before[e].1@ == m;
                        assert(out@[e] == out_before[e]);
                    } else {
                        assert(inner@.contains_key(m));
                        assert(inner.keys_view().contains(m));
                        let q = choose|q: int| 0 <= q < inner.keys_view().len() && inner.keys_view()[q] == m;
                        assert(inner.keys_view()[q] == m);
                    }
                }
            }
            i = i + 1;
        }
        proof {
            assert forall|p: Seq<char>, m: Seq<char>| #[trigger] self@.contains_key((p, m)) implies exists|e: int|
                0 <= e < out@.len() && out@[e].0@ == p && out@[e].1@ == m by {
                assert(self.values@.contains_key(p));
                assert(self.values.keys_view().contains(p));
                let j = choose|j: int| 0 <= j < self.values.keys_view().len() && self.values.keys_view()[j] == p;
                assert(self@.contains_key((self.values.keys_view()[j], m)));
            }
        }
        out
    }

    /// This peer's confirmed value for a monitor, or `None` if unknown-until-first-active.
    pub fn confirmed_value(&self, peer_id: &str, monitor_id: &str) -> (r: Option<u32>)
        requires
            self.wf(),
        ensures
            r == (if self@.contains_key((peer_id@, monitor_id@)) {
                Some(self@[(peer_id@, monitor_id@)])
            } else {
                None
            }),
    {
        match self.values.get(peer_id) {
            Some(inner) => match inner.get(monitor_id) {
                Some(v) => Some(*v),
                None => None,
            },
            None => None,
        }
    }

    pub fn is_calibrated(&self, peer_id: &str, monitor_id: &str) -> (b: bool)
        requires
            self.wf(),
        ensures
            b == self@.contains_key((peer_id@, monitor_id@)),
    {
        self.confirmed_value(peer_id, monitor_id).is_some()
    }

    /// The confirmed value(s) as the soft-brick allow-list for the actuation policy. Empty when
    /// uncalibrated.
    pub fn confirmed_set(&self, peer_id: &str, monitor_id: &str) -> (s: HashSet<u32>)
        requires
            self.wf(),
        ensures
            s@ == (if self@.contains_key((peer_id@, monitor_id@)) {
                set![self@[(peer_id@, monitor_id@)]]
            } else {
                Set::<u32>::empty()
            }),
    {
        let mut s: HashSet<u32> = HashSet::new();
        match self.confirmed_value(peer_id, monitor_id) {
            Some(v) => {
                s.insert(v);
            },
            None => {},
        }
        proof {
            if self@.contains_key((peer_id@, monitor_id@)) {
                assert(s@ =~= set![self@[(peer_id@, monitor_id@)]]);
            } else {
                assert(s@ =~= Set::<u32>::empty());
            }
        }
        s
    }

    /// Reverse lookup: which peer (if any) has `value` confirmed for `monitor_id`. When several
    /// do, the least peer id in string order wins, so a tie resolves deterministically.
    pub fn owner_for(&self, monitor_id: &str, value: u32) -> (r: Option<String>)
        requires
            self.wf(),
        ensures
            match r {
                Some(p) => {
                    &&& holds_value(self@, p@, monitor_id@, value)
                    &&& forall|q: Seq<char>|
                        #[trigger] holds_value(self@, q, monitor_id@, value) && q != p@ ==> chars_lt(p@, q)
                },
                None => forall|q: Seq<char>| !#[trigger] holds_value(self@, q, monitor_id@, value),
            },
    {
        let n = self.values.len();
        let mut best: Option<String> = None;
        let mut i: usize = 0;
        while i < n
            invariant
                self.wf(),
                n == self.values.keys_view().len(),
                i <= n,
                self.values.keys_view().no_duplicates(),
                forall|k: Seq<char>| #[trigger] self.values@.contains_key(k) <==> self.values.keys_view().contains(k),
                forall|j: int| 0 <= j < n ==> #[trigger] self.values@[self.values.keys_view()[j]] == self.values.values_view()[j],
                match best {
                    Some(p) => {
                        &&& holds_value(self@, p@, monitor_id@, value)
                        &&& exists|j: int| 0 <= j < i && self.values.keys_view()[j] == p@
                        &&& forall|j: int|
                            0 <= j < i && #[trigger] holds_value(self@, self.values.keys_view()[j], monitor_id@, value)
                                && self.values.keys_view()[j] != p@ ==> chars_lt(p@, self.values.keys_view()[j])
                    },
                    None => forall|j: int| 0 <= j < i ==> !#[trigger] holds_value(self@, self.values.keys_view()[j], monitor_id@, value),
                },
            decreases n - i,
        {
            let peer = self.values.key_at(i);
            let inner = self.values.value_at(i);
            let hit = match inner.get(monitor_id) {
                Some(v) => *v == value,
                None => false,
            };
            let ghost kv = self.values.keys_view();
            proof {
                assert(self.values@.contains_key(kv[i as int]));
                assert(hit == holds_value(self@, kv[i as int], monitor_id@, value));
            }
            if hit {
                let replace = match &best {
                    Some(b) => str_lt(peer.as_str(), b.as_str()),
                    None => true,
                };
                proof {
                    let ghost gb = best;
                    match gb {
                        Some(b) => {
                            let jb = choose|j: int| 0 <= j < i && kv[j] == b@;
                            assert(kv[jb] != kv[i as int]);
                            lemma_chars_lt_total(peer@, b@);
                            if replace {
                                assert forall|j: int|
                                    0 <= j < i + 1 && #[trigger] holds_value(self@, kv[j], monitor_id@, value)
                                        && kv[j] != peer@ implies chars_lt(peer@, kv[j]) by {
                                    if j < i && kv[j] != b@ {
                                        lemma_chars_lt_transitive(peer@, b@, kv[j]);
                                    }
                                }
                            }
                        },
                        None => {},
                    }
                }
                if replace {
                    best = Some(peer.clone());
                }
            }
            i = i + 1;
        }
        proof {
            let ghost gb = best;
            match gb {
                Some(p) => {
                    assert forall|q: Seq<char>|
                        #[trigger] holds_value(self@, q, monitor_id@, value) && q != p@ implies chars_lt(p@, q) by {
                        assert(self.values@.contains_key(q));
                        let j = choose|j: int| 0 <= j < n && self.values.keys_view()[j] == q;
                        assert(holds_value(self@, self.values.keys_view()[j], monitor_id@, value));
                    }
                },
                None => {
                    assert forall|q: Seq<char>| !#[trigger] holds_value(self@, q, monitor_id@, value) by {
                        if holds_value(self@, q, monitor_id@, value) {
                            assert(self.values@.contains_key(q));
                            let j = choose|j: int| 0 <= j < n && self.values.keys_view()[j] == q;
                            assert(holds_value(self@, self.values.keys_view()[j], monitor_id@, value));
                        }
                    }
                },
            }
        }
        best
    }
}

/// A recorded value is readable back for exactly its own `(peer, monitor)` pair and never for
/// another peer or another monitor.
pub proof fn lemma_record_isolated(
    before: Map<(Seq<char>, Seq<char>), u32>,
    after: Map<(Seq<char>, Seq<char>), u32>,
    peer: Seq<char>,
    monitor: Seq<char>,
    value: u32,
    other_peer: Seq<char>,
    other_monitor: Seq<char>,
)
    requires
        after == before.insert((peer, monitor), value),
        other_peer != peer || other_monitor != monitor,
    ensures
        after.contains_key((peer, monitor)) && after[(peer, monitor)] == value,
        after.contains_key((other_peer, other_monitor)) == before.contains_key((other_peer, other_monitor)),
        before.contains_key((other_peer, other_monitor)) ==> after[(other_peer, other_monitor)] == before[(other_peer, other_monitor)],
{
}

} // verus!
