//! Per-monitor lease locks that serialize switches across the mesh: a lease lock, no elected
//! coordinator. A lease is valid while its expiry lies strictly in the future.

use crate::strmap::StrMap;
use crate::text::str_eq;
use vstd::prelude::*;

verus! {

broadcast use vstd::seq_lib::group_seq_properties;

/// Default lease length. It must exceed the per-monitor switch hard ceiling (15 s) plus margin,
/// so a lease cannot expire mid-switch and admit a second actuator.
pub const DEFAULT_LEASE_MS: u64 = 30_000;

/// A granted per-monitor lease.
#[derive(Debug, PartialEq, Eq)]
pub struct Lease {
    pub holder: String,
    pub expires_ms: u64,
}

impl Clone for Lease {
    fn clone(&self) -> (r: Self)
        ensures
            r == *self,
    {
        Lease { holder: self.holder.clone(), expires_ms: self.expires_ms }
    }
}

/// Mathematical view of a lease.
pub struct LeaseView {
    pub holder: Seq<char>,
    pub expires_ms: u64,
}

impl View for Lease {
    type V = LeaseView;

    open spec fn view(&self) -> LeaseView {
        LeaseView { holder: self.holder@, expires_ms: self.expires_ms }
    }
}

/// Result of an acquire attempt.
#[derive(Debug, Clone, PartialEq, Eq)]
pub enum LockOutcome {
    Granted(Lease),
    Denied { current_holder: String },
}

/// The lease table as a map from monitor to lease.
pub open spec fn leases_of(m: Map<Seq<char>, Lease>) -> Map<Seq<char>, LeaseView> {
    m.map_values(|l: Lease| l@)
}

/// True when `monitor` is validly held at `now` by someone other than `peer`.
pub open spec fn held_by_other(locks: Map<Seq<char>, LeaseView>, monitor: Seq<char>, peer: Seq<char>, now: u64) -> bool {
    locks.contains_key(monitor) && locks[monitor].expires_ms > now && locks[monitor].holder != peer
}

/// The lease table after `peer` acquires `monitor` at `now` for `lease_ms` (unchanged if denied).
pub open spec fn acquire_spec(
    locks: Map<Seq<char>, LeaseView>,
    monitor: Seq<char>,
    peer: Seq<char>,
    now: u64,
    lease_ms: u64,
) -> Map<Seq<char>, LeaseView> {
    if held_by_other(locks, monitor, peer, now) {
        locks
    } else {
        locks.insert(monitor, LeaseView { holder: peer, expires_ms: (now + lease_ms) as u64 })
    }
}

/// The current valid holder of `monitor` at `now`, if any.
pub open spec fn holder_spec(locks: Map<Seq<char>, LeaseView>, monitor: Seq<char>, now: u64) -> Option<Seq<char>> {
    if locks.contains_key(monitor) && locks[monitor].expires_ms > now {
        Some(locks[monitor].holder)
    } else {
        None
    }
}

/// Mutual exclusion: once `a` has been granted a lease at `t0`, another peer asking before that
/// lease expires is refused and the table is unchanged, and the holder stays `a`.
pub proof fn lemma_lease_excludes_others(
    locks: Map<Seq<char>, LeaseView>,
    monitor: Seq<char>,
    a: Seq<char>,
    b: Seq<char>,
    t0: u64,
    lease_ms: u64,
    t1: u64,
)
    requires
        !held_by_other(locks, monitor, a, t0),
        a != b,
        t0 + lease_ms <= u64::MAX,
        t1 < t0 + lease_ms,
    ensures
        ({
            let granted = acquire_spec(locks, monitor, a, t0, lease_ms);
            &&& held_by_other(granted, monitor, b, t1)
            &&& acquire_spec(granted, monitor, b, t1, lease_ms) == granted
            &&& holder_spec(granted, monitor, t1) == Some(a)
        }),
{
}

/// Per-monitor lease locks.
#[derive(Debug)]
pub struct LockManager {
    locks: StrMap<Lease>,
}

impl LockManager {
    /// Internal consistency of the lease table.
    pub closed spec fn wf(&self) -> bool {
        self.locks.wf()
    }

    /// The lease table: monitor → (holder, expiry).
    pub closed spec fn view(&self) -> Map<Seq<char>, LeaseView> {
        leases_of(self.locks@)
    }

    pub fn new() -> (m: Self)
        ensures
            m.wf(),
            m@ == Map::<Seq<char>, LeaseView>::empty(),
    {
        let m = LockManager { locks: StrMap::new() };
        assert(m@ =~= Map::<Seq<char>, LeaseView>::empty());
        m
    }

    /// Acquire (or renew, if already held by `peer`) the lock for `monitor`. Granted when the
    /// monitor is free, the existing lease has expired, or `peer` already holds it.
    pub fn acquire(&mut self, monitor: &str, peer: &str, now_ms: u64, lease_ms: u64) -> (r: LockOutcome)
        requires
            old(self).wf(),
            now_ms + lease_ms <= u64::MAX,
        ensures
            final(self).wf(),
            final(self)@ == acquire_spec(old(self)@, monitor@, peer@, now_ms, lease_ms),
            match r {
                LockOutcome::Granted(l) => !held_by_other(old(self)@, monitor@, peer@, now_ms) && l@
                    == (LeaseView { holder: peer@, expires_ms: (now_ms + lease_ms) as u64 }),
                LockOutcome::Denied { current_holder } => held_by_other(old(self)@, monitor@, peer@, now_ms)
                    && current_holder@ == old(self)@[monitor@].holder,
            },
    {
        let ghost old_locks = self.locks@;
        match self.locks.get(monitor) {
            Some(l) => {
                if l.expires_ms > now_ms && !str_eq(l.holder.as_str(), peer) {
                    return LockOutcome::Denied { current_holder: l.holder.clone() };
                }
            },
            None => {},
        }
        let lease = Lease { holder: peer.to_owned(), expires_ms: now_ms + lease_ms };
        self.locks.insert(monitor.to_owned(), lease.clone());
        proof {
            assert(self@ =~= acquire_spec(old(self)@, monitor@, peer@, now_ms, lease_ms));
        }
        LockOutcome::Granted(lease)
    }

    /// Extend a lease the peer currently and validly holds. `None` if it doesn't hold it (or it
    /// already expired) — the caller must then re-acquire.
    pub fn renew(&mut self, monitor: &str, peer: &str, now_ms: u64, lease_ms: u64) -> (r: Option<Lease>)
        requires
            old(self).wf(),
            now_ms + lease_ms <= u64::MAX,
        ensures
            final(self).wf(),
            ({
                let valid = old(self)@.contains_key(monitor@) && old(self)@[monitor@].holder == peer@
                    && old(self)@[monitor@].expires_ms > now_ms;
                let fresh = LeaseView { holder: peer@, expires_ms: (now_ms + lease_ms) as u64 };
                &&& valid ==> r is Some && r->0@ == fresh && final(self)@ == old(self)@.insert(monitor@, fresh)
                &&& !valid ==> r is None && final(self)@ == old(self)@
            }),
    {
        let valid = match self.locks.get(monitor) {
            Some(l) => str_eq(l.holder.as_str(), peer) && l.expires_ms > now_ms,
            None => false,
        };
        if valid {
            let lease = Lease { holder: peer.to_owned(), expires_ms: now_ms + lease_ms };
            self.locks.insert(monitor.to_owned(), lease.clone());
            proof {
                assert(self@ =~= old(self)@.insert(monitor@, lease@));
            }
            Some(lease)
        } else {
            None
        }
    }

    /// Release a lock the peer holds. Returns false if it didn't hold it.
    pub fn release(&mut self, monitor: &str, peer: &str) -> (released: bool)
        requires
            old(self).wf(),
        ensures
            final(self).wf(),
            released == (old(self)@.contains_key(monitor@) && old(self)@[monitor@].holder == peer@),
            released ==> final(self)@ == old(self)@.remove(monitor@),
            !released ==> final(self)@ == old(self)@,
    {
        let holds = match self.locks.get(monitor) {
            Some(l) => str_eq(l.holder.as_str(), peer),
            None => false,
        };
        if holds {
            self.locks.remove(monitor);
            proof {
                assert(self@ =~= old(self)@.remove(monitor@));
            }
        }
        holds
    }

    /// The current valid holder of a monitor's lock, if any.
    pub fn holder(&self, monitor: &str, now_ms: u64) -> (h: Option<&str>)
        requires
            self.wf(),
        ensures
            match h {
                Some(s) => holder_spec(self@, monitor@, now_ms) == Some(s@),
                None => holder_spec(self@, monitor@, now_ms) is None,
            },
    {
        match self.locks.get(monitor) {
            Some(l) => {
                if l.expires_ms > now_ms {
                    Some(l.holder.as_str())
                } else {
                    None
                }
            },
            None => None,
        }
    }

    /// Acquire all of a preset's monitors up front, or none. On the first denial, every lock taken
    /// in this call is released and the blocking monitor + holder is returned.
    pub fn acquire_all(&mut self, monitors: &[&str], peer: &str, now_ms: u64, lease_ms: u64) -> (r: Result<(), (String, String)>)
        requires
            old(self).wf(),
            now_ms + lease_ms <= u64::MAX,
        ensures
            final(self).wf(),
            ({
                let ms = monitors@.map_values(|m: &str| m@);
                let lease = LeaseView { holder: peer@, expires_ms: (now_ms + lease_ms) as u64 };
                match r {
                    Ok(()) => {
                        &&& forall|i: int| 0 <= i < ms.len() ==> !held_by_other(old(self)@, #[trigger] ms[i], peer@, now_ms)
                        &&& final(self)@ == old(self)@.union_prefer_right(Map::new(|k: Seq<char>| ms.contains(k), |k: Seq<char>| lease))
                    },
                    Err((blocked, holder)) => exists|j: int| {
                        &&& 0 <= j < ms.len()
                        &&& #[trigger] ms[j] == blocked@
                        &&& held_by_other(old(self)@, ms[j], peer@, now_ms)
                        &&& holder@ == old(self)@[ms[j]].holder
                        &&& forall|i: int| 0 <= i < j ==> !held_by_other(old(self)@, #[trigger] ms[i], peer@, now_ms)
                        &&& final(self)@ == old(self)@.remove_keys(ms.take(j).to_set())
                    },
                }
            }),
    {
        let ghost ms = monitors@.map_values(|m: &str| m@);
        let ghost lease = LeaseView { holder: peer@, expires_ms: (now_ms + lease_ms) as u64 };
        let ghost start = self@;
        let mut i: usize = 0;
        while i < monitors.len()
            invariant
                self.wf(),
                i <= monitors@.len(),
                ms == monitors@.map_values(|m: &str| m@),
                start == old(self)@,
                lease == (LeaseView { holder: peer@, expires_ms: (now_ms + lease_ms) as u64 }),
                now_ms + lease_ms <= u64::MAX,
                forall|k: int| 0 <= k < i ==> !held_by_other(start, #[trigger] ms[k], peer@, now_ms),
                self@ == start.union_prefer_right(Map::new(|k: Seq<char>| ms.take(i as int).contains(k), |k: Seq<char>| lease)),
            decreases monitors@.len() - i,
        {
            let m = monitors[i];
            let ghost before = self@;
            let outcome = self.acquire(m, peer, now_ms, lease_ms);
            match outcome {
                LockOutcome::Granted(_) => {
                    proof {
                        assert(!held_by_other(start, ms[i as int], peer@, now_ms)) by {
                            if start.contains_key(ms[i as int]) && !ms.take(i as int).contains(ms[i as int]) {
                                assert(before[ms[i as int]] == start[ms[i as int]]);
                            }
                            if ms.take(i as int).contains(ms[i as int]) {
                                let k = choose|k: int| 0 <= k < i && ms.take(i as int)[k] == ms[i as int];
                                assert(ms[k] == ms[i as int]);
                            }
                        }
                        assert(ms.take(i + 1) =~= ms.take(i as int).push(ms[i as int]));
                        assert(self@ =~= start.union_prefer_right(Map::new(|k: Seq<char>| ms.take(i + 1).contains(k), |k: Seq<char>| lease))) by {
                            assert forall|k: Seq<char>| ms.take(i + 1).contains(k) <==> (ms.take(i as int).contains(k) || k == ms[i as int]) by {
                                assert(ms.take(i + 1) =~= ms.take(i as int).push(ms[i as int]));
                            }
                        }
                    }
                },
                LockOutcome::Denied { current_holder } => {
                    proof {
                        assert(!ms.take(i as int).contains(ms[i as int])) by {
                            if ms.take(i as int).contains(ms[i as int]) {
                                let k = choose|k: int| 0 <= k < i && ms.take(i as int)[k] == ms[i as int];
                                assert(before.contains_key(ms[i as int]));
                                assert(before[ms[i as int]] == lease);
                            }
                        }
                        assert(before[ms[i as int]] == start[ms[i as int]]);
                    }
                    let ghost denied_at = self@;
                    let mut k: usize = 0;
                    while k < i
                        invariant
                            self.wf(),
                            k <= i,
                            i < monitors@.len(),
                            lease == (LeaseView { holder: peer@, expires_ms: (now_ms + lease_ms) as u64 }),
                            ms == monitors@.map_values(|m: &str| m@),
                            start == old(self)@,
                            self@ == denied_at.remove_keys(ms.take(k as int).to_set()).union_prefer_right(
                                Map::new(|x: Seq<char>| ms.take(i as int).contains(x) && !ms.take(k as int).contains(x), |x: Seq<char>| lease)),
                            denied_at == start.union_prefer_right(Map::new(|x: Seq<char>| ms.take(i as int).contains(x), |x: Seq<char>| lease)),
                        decreases i - k,
                    {
                        let a = monitors[k];
                        let ghost before_release = self@;
                        let ghost tk = ms.take(k as int).to_set();
                        let released = self.release(a, peer);
                        proof {
                            assert(a@ == ms[k as int]);
                            if tk.contains(ms[k as int]) {
                                assert(!before_release.contains_key(ms[k as int]));
                                assert(!released);
                            } else {
                                assert(ms.take(i as int).contains(ms[k as int])) by {
                                    assert(ms.take(i as int)[k as int] == ms[k as int]);
                                }
                                assert(before_release.contains_key(ms[k as int]));
                                assert(before_release[ms[k as int]] == lease);
                                assert(before_release.contains_key(a@));
                                assert(before_release[a@].holder == peer@);
                                assert(released);
                            }
                            assert(ms.take(k + 1).to_set() =~= ms.take(k as int).to_set().insert(ms[k as int])) by {
                                assert(ms.take(k + 1) =~= ms.take(k as int).push(ms[k as int]));
                                ms.take(k as int).lemma_push_to_set_commute(ms[k as int]);
                            }
                            assert forall|x: Seq<char>| ms.take(k + 1).contains(x) <==> (ms.take(k as int).contains(x) || x == ms[k as int]) by {
                                assert(ms.take(k + 1) =~= ms.take(k as int).push(ms[k as int]));
                            }
                            assert(ms.take(i as int).contains(ms[k as int])) by {
                                assert(ms.take(i as int)[k as int] == ms[k as int]);
                            }
                            assert(self@ =~= denied_at.remove_keys(ms.take(k + 1).to_set()).union_prefer_right(
                                Map::new(|x: Seq<char>| ms.take(i as int).contains(x) && !ms.take(k + 1).contains(x), |x: Seq<char>| lease)));
                        }
                        k = k + 1;
                    }
                    proof {
                        assert(self@ =~= start.remove_keys(ms.take(i as int).to_set())) by {
                            assert forall|x: Seq<char>| ms.take(i as int).contains(x) <==> ms.take(i as int).to_set().contains(x) by {}
                        }
                    }
                    proof {
                        assert(ms[i as int] == m@);
                        assert(start.contains_key(ms[i as int]));
                        assert(held_by_other(start, ms[i as int], peer@, now_ms));
                        assert(current_holder@ == start[ms[i as int]].holder);
                        assert(self@ == start.remove_keys(ms.take(i as int).to_set()));
                        assert(forall|x: int| 0 <= x < i ==> !held_by_other(start, #[trigger] ms[x], peer@, now_ms));
                    }
                    let blocked = m.to_owned();
                    proof {
                        let j = i as int;
                        assert(blocked@ == ms[j]);
                        assert(exists|j: int| {
                            &&& 0 <= j < ms.len()
                            &&& #[trigger] ms[j] == blocked@
                            &&& held_by_other(start, ms[j], peer@, now_ms)
                            &&& current_holder@ == start[ms[j]].holder
                            &&& forall|x: int| 0 <= x < j ==> !held_by_other(start, #[trigger] ms[x], peer@, now_ms)
                            &&& self@ == start.remove_keys(ms.take(j).to_set())
                        });
                    }
                    return Err((blocked, current_holder));
                },
            }
            i = i + 1;
        }
        proof {
            assert(ms.take(i as int) =~= ms);
        }
        Ok(())
    }
}

} // verus!
