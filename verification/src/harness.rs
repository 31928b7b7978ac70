//! Soak-test statistics for one panel and direction: success counts within the first attempt
//! and within the retry budget, and nearest-rank latency percentiles.

use crate::types::{effective_success, SwitchDirection, SwitchOutcome};
use vstd::prelude::*;
use vstd::relations::{sorted_by, total_ordering};

verus! {

broadcast use {vstd::seq_lib::group_to_multiset_ensures, vstd::multiset::group_multiset_axioms};

/// One switch attempt's observed result.
#[derive(Debug, Clone, Copy, PartialEq, Eq, Structural)]
pub struct SoakSample {
    pub outcome: SwitchOutcome,
    pub attempts: u32,
    pub latency_ms: u64,
}

impl SoakSample {
    pub fn new(outcome: SwitchOutcome, attempts: u32, latency_ms: u64) -> (s: Self)
        ensures
            s.outcome == outcome,
            s.attempts == attempts,
            s.latency_ms == latency_ms,
    {
        SoakSample { outcome, attempts, latency_ms }
    }
}

/// `<=` on latencies.
pub open spec fn le_u64() -> spec_fn(u64, u64) -> bool {
    |x: u64, y: u64| x <= y
}

/// The latencies of the samples, in recording order.
pub open spec fn latencies(samples: Seq<SoakSample>) -> Seq<u64> {
    samples.map_values(|s: SoakSample| s.latency_ms)
}

/// Nearest rank of percentile `pct` (clamped to 100) among `n` values: `ceil(pct/100 * n)`,
/// at least 1 and at most `n`.
pub open spec fn nearest_rank(pct: u32, n: nat) -> int {
    let p = if pct > 100 { 100 } else { pct as int };
    let rank = (p * n + 99) / 100;
    if rank < 1 {
        1
    } else if rank > n {
        n as int
    } else {
        rank
    }
}

/// Effective successes.
pub open spec fn successes(s: Seq<SoakSample>) -> Seq<SoakSample> {
    s.filter(|x: SoakSample| effective_success(x.outcome))
}

/// Effective successes on the first attempt.
pub open spec fn first_attempt_successes(s: Seq<SoakSample>) -> Seq<SoakSample> {
    s.filter(|x: SoakSample| effective_success(x.outcome) && x.attempts <= 1)
}

/// Samples for one panel and switch direction.
#[derive(Debug, Clone)]
pub struct PanelStats {
    pub panel: String,
    pub direction: SwitchDirection,
    samples: Vec<SoakSample>,
}

proof fn lemma_le_total()
    ensures
        total_ordering(le_u64()),
{
}

/// Insertion-sorts `v` in increasing order.
fn sort_u64(v: Vec<u64>) -> (r: Vec<u64>)
    ensures
        sorted_by(r@, le_u64()),
        r@.to_multiset() == v@.to_multiset(),
{
    let mut r: Vec<u64> = Vec::new();
    let mut i: usize = 0;
    while i < v.len()
        invariant
            i <= v@.len(),
            sorted_by(r@, le_u64()),
            r@.to_multiset() == v@.subrange(0, i as int).to_multiset(),
        decreases v@.len() - i,
    {
        let x = v[i];
        let mut j: usize = 0;
        while j < r.len() && r[j] <= x
            invariant
                j <= r@.len(),
                forall|k: int| 0 <= k < j ==> r@[k] <= x,
            decreases r@.len() - j,
        {
            j = j + 1;
        }
        let ghost old_r = r@;
        r.insert(j, x);
        proof {
            assert(r@ == old_r.insert(j as int, x));
            assert forall|a: int, b: int| 0 <= a < b < r@.len() implies #[trigger] (le_u64())(r@[a], r@[b]) by {
                if a < j && b < j {
                    assert((le_u64())(old_r[a], old_r[b]));
                } else if a < j && b > j {
                    assert((le_u64())(old_r[a], old_r[b - 1]));
                } else if a > j {
                    assert((le_u64())(old_r[a - 1], old_r[b - 1]));
                } else if a == j && j < old_r.len() {
                    assert(x < old_r[j as int]);
                    if b - 1 > j {
                        assert((le_u64())(old_r[j as int], old_r[b - 1]));
                    }
                }
            }
            assert(v@.subrange(0, i + 1) =~= v@.subrange(0, i as int).push(x));
        }
        i = i + 1;
    }
    proof {
        assert(v@.subrange(0, v@.len() as int) =~= v@);
    }
    r
}

impl PanelStats {
    /// The samples recorded so far, in order.
    pub closed spec fn samples(&self) -> Seq<SoakSample> {
        self.samples@
    }

    /// The panel name.
    pub closed spec fn panel_name(&self) -> String {
        self.panel
    }

    /// The switch direction measured.
    pub closed spec fn dir(&self) -> SwitchDirection {
        self.direction
    }

    pub fn new(panel: String, direction: SwitchDirection) -> (s: Self)
        ensures
            s.panel_name() == panel,
            s.dir() == direction,
            s.samples() == Seq::<SoakSample>::empty(),
    {
        PanelStats { panel, direction, samples: Vec::new() }
    }

    pub fn record(&mut self, sample: SoakSample)
        ensures
            final(self).samples() == old(self).samples().push(sample),
            final(self).panel_name() == old(self).panel_name(),
            final(self).dir() == old(self).dir(),
    {
        self.samples.push(sample);
    }

    pub fn count(&self) -> (n: usize)
        ensures
            n == self.samples().len(),
    {
        self.samples.len()
    }

    /// Number of effective successes (within the retry budget).
    pub fn within_retry_count(&self) -> (n: usize)
        ensures
            n == successes(self.samples()).len(),
    {
        let mut n: usize = 0;
        let mut i: usize = 0;
        while i < self.samples.len()
            invariant
                i <= self.samples@.len(),
                n == successes(self.samples@.subrange(0, i as int)).len(),
                n <= i,
            decreases self.samples@.len() - i,
        {
            proof {
                let s = self.samples@.subrange(0, i + 1);
                assert(s.drop_last() =~= self.samples@.subrange(0, i as int));
                reveal_with_fuel(Seq::filter, 2);
            }
            if self.samples[i].outcome.is_effective_success() {
                n = n + 1;
            }
            i = i + 1;
        }
        proof {
            assert(self.samples@.subrange(0, self.samples@.len() as int) =~= self.samples@);
        }
        n
    }

    /// Number of effective successes that took at most one attempt.
    pub fn first_attempt_count(&self) -> (n: usize)
        ensures
            n == first_attempt_successes(self.samples()).len(),
    {
        let mut n: usize = 0;
        let mut i: usize = 0;
        while i < self.samples.len()
            invariant
                i <= self.samples@.len(),
                n == first_attempt_successes(self.samples@.subrange(0, i as int)).len(),
                n <= i,
            decreases self.samples@.len() - i,
        {
            proof {
                let s = self.samples@.subrange(0, i + 1);
                assert(s.drop_last() =~= self.samples@.subrange(0, i as int));
                reveal_with_fuel(Seq::filter, 2);
            }
            if self.samples[i].outcome.is_effective_success() && self.samples[i].attempts <= 1 {
                n = n + 1;
            }
            i = i + 1;
        }
        proof {
            assert(self.samples@.subrange(0, self.samples@.len() as int) =~= self.samples@);
        }
        n
    }

    /// Nearest-rank latency percentile: the value at rank `ceil(pct/100 * n)` of the sorted
    /// latencies (`pct` clamped to 100). `None` without samples.
    pub fn latency_percentile_ms(&self, pct: u32) -> (r: Option<u64>)
        ensures
            self.samples().len() == 0 ==> r is None,
            self.samples().len() > 0 ==> r == Some(
                latencies(self.samples()).sort_by(le_u64())[nearest_rank(pct, self.samples().len()) - 1],
            ),
    {
        let n = self.samples.len();
        if n == 0 {
            return None;
        }
        let mut lat: Vec<u64> = Vec::new();
        let mut i: usize = 0;
        while i < n
            invariant
                n == self.samples@.len(),
                i <= n,
                lat@ == latencies(self.samples@).subrange(0, i as int),
            decreases n - i,
        {
            lat.push(self.samples[i].latency_ms);
            proof {
                assert(lat@ =~= latencies(self.samples@).subrange(0, i + 1));
            }
            i = i + 1;
        }
        proof {
            assert(lat@ =~= latencies(self.samples@));
        }
        let ghost lv = lat@;
        let sorted = sort_u64(lat);
        proof {
            lemma_le_total();
            latencies(self.samples@).lemma_sort_by_ensures(le_u64());
            vstd::seq_lib::lemma_sorted_unique(sorted@, latencies(self.samples@).sort_by(le_u64()), le_u64());
        }
        let p: u128 = if pct > 100 { 100 } else { pct as u128 };
        let nn: u128 = n as u128;
        proof {
            assert(p * nn <= 100 * 0xFFFF_FFFF_FFFF_FFFFu128) by (nonlinear_arith)
                requires
                    p <= 100,
                    nn <= 0xFFFF_FFFF_FFFF_FFFFu128,
            ;
        }
        let rank128: u128 = (p * nn + 99) / 100;
        let rank: usize = if rank128 < 1 {
            1
        } else if rank128 > n as u128 {
            n
        } else {
            rank128 as usize
        };
        proof {
            assert(rank == nearest_rank(pct, n as nat));
            assert(sorted@.to_multiset().len() == sorted@.len());
            assert(lv.to_multiset().len() == lv.len());
            assert(sorted@.len() == n);
        }
        Some(sorted[rank - 1])
    }

    /// The median latency (nearest rank).
    pub fn latency_median_ms(&self) -> (r: Option<u64>)
        ensures
            self.samples().len() == 0 ==> r is None,
            self.samples().len() > 0 ==> r == Some(
                latencies(self.samples()).sort_by(le_u64())[nearest_rank(50, self.samples().len()) - 1],
            ),
    {
        self.latency_percentile_ms(50)
    }

    /// The 90th-percentile latency (nearest rank).
    pub fn latency_p90_ms(&self) -> (r: Option<u64>)
        ensures
            self.samples().len() == 0 ==> r is None,
            self.samples().len() > 0 ==> r == Some(
                latencies(self.samples()).sort_by(le_u64())[nearest_rank(90, self.samples().len()) - 1],
            ),
    {
        self.latency_percentile_ms(90)
    }

    /// Pull-to-self is confirmed for this panel once any pull-to-self sample effectively
    /// succeeded.
    pub fn is_pull_to_self_capable(&self) -> (b: bool)
        ensures
            b == (self.dir() == SwitchDirection::PullToSelf && exists|i: int|
                0 <= i < self.samples().len() && effective_success(#[trigger] self.samples()[i].outcome)),
    {
        if self.direction != SwitchDirection::PullToSelf {
            return false;
        }
        let mut i: usize = 0;
        while i < self.samples.len()
            invariant
                i <= self.samples@.len(),
                self.direction == SwitchDirection::PullToSelf,
                forall|j: int| 0 <= j < i ==> !effective_success(#[trigger] self.samples@[j].outcome),
            decreases self.samples@.len() - i,
        {
            if self.samples[i].outcome.is_effective_success() {
                proof {
                    assert(effective_success(self.samples()[i as int].outcome));
                }
                return true;
            }
            i = i + 1;
        }
        false
    }
}

/// Soak one panel: take `sample_size` samples from `sampler` (called with 0, 1, …) in order.
pub fn soak_panel<F: FnMut(usize) -> SoakSample>(panel: String, direction: SwitchDirection, sample_size: usize, sampler: F) -> (stats: PanelStats)
    requires
        forall|i: usize| call_requires(sampler, (i,)),
    ensures
        stats.panel_name() == panel,
        stats.dir() == direction,
        stats.samples().len() == sample_size,
        forall|i: int| 0 <= i < sample_size ==> call_ensures(sampler, (i as usize,), #[trigger] stats.samples()[i]),
{
    let ghost original = sampler;
    let mut sampler = sampler;
    let mut stats = PanelStats::new(panel, direction);
    let mut i: usize = 0;
    while i < sample_size
        invariant
            i <= sample_size,
            stats.panel_name() == panel,
            stats.dir() == direction,
            stats.samples().len() == i,
            sampler == original,
            forall|k: usize| call_requires(sampler, (k,)),
            forall|k: int| 0 <= k < i ==> call_ensures(original, (k as usize,), #[trigger] stats.samples()[k]),
        decreases sample_size - i,
    {
        let s = sampler(i);
        stats.record(s);
        i = i + 1;
    }
    stats
}

/// A panel whose pull-to-self direction has at least one effective success.
pub open spec fn pull_to_self_capable(p: PanelStats) -> bool {
    p.dir() == SwitchDirection::PullToSelf && exists|i: int|
        0 <= i < p.samples().len() && effective_success(#[trigger] p.samples()[i].outcome)
}

/// A whole soak run over several panels.
#[derive(Debug, Clone)]
pub struct SoakReport {
    pub panels: Vec<PanelStats>,
}

impl SoakReport {
    pub fn new() -> (r: Self)
        ensures
            r.panels@.len() == 0,
    {
        SoakReport { panels: Vec::new() }
    }

    pub fn add(&mut self, stats: PanelStats)
        ensures
            final(self).panels@ == old(self).panels@.push(stats),
    {
        self.panels.push(stats);
    }

    /// The panels confirmed pull-to-self capable, in order.
    pub fn pull_to_self_panels(&self) -> (v: Vec<&PanelStats>)
        ensures
            v@.map_values(|r: &PanelStats| *r) == self.panels@.filter(|p: PanelStats| pull_to_self_capable(p)),
    {
        let ghost keep = |p: PanelStats| pull_to_self_capable(p);
        let mut v: Vec<&PanelStats> = Vec::new();
        let mut i: usize = 0;
        assert(self.panels@.take(0).filter(keep) =~= seq![]);
        assert(v@.map_values(|r: &PanelStats| *r) =~= seq![]);
        while i < self.panels.len()
            invariant
                i <= self.panels@.len(),
                keep == (|p: PanelStats| pull_to_self_capable(p)),
                v@.map_values(|r: &PanelStats| *r) == self.panels@.take(i as int).filter(keep),
            decreases self.panels@.len() - i,
        {
            let p = &self.panels[i];
            let ghost before = v@.map_values(|r: &PanelStats| *r);
            proof {
                self.panels@.take(i as int).lemma_filter_push(*p, keep);
                assert(self.panels@.take(i as int).push(*p) =~= self.panels@.take(i + 1));
            }
            if p.is_pull_to_self_capable() {
                v.push(p);
                assert(v@.map_values(|r: &PanelStats| *r) =~= before.push(*p));
            } else {
                assert(v@.map_values(|r: &PanelStats| *r) =~= before);
            }
            i = i + 1;
        }
        assert(self.panels@.take(self.panels@.len() as int) =~= self.panels@);
        v
    }
}

} // verus!
