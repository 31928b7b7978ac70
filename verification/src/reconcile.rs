//! Reconciliation: fold live `0x60` reads back into the ownership cache so an external
//! OSD-button change (or a panel whose DDC got disabled) is detected and corrected.
//!
//! Callers pass a current wall-clock `now_ms` (the epoch of ownership last-writer-wins): a fresh
//! read carries the latest timestamp, which is what lets the observed hardware truth win over
//! stale gossip.

use crate::ownership::{apply_spec, gossip_record, opt_view, OwnershipMap, OwnershipState, RecordView};
use vstd::prelude::*;

verus! {

/// What a live read of one panel found.
#[derive(Debug, Clone, PartialEq, Eq)]
pub enum LiveRead {
    /// The panel's live `0x60` maps to this peer (`Some`) or is unowned/unmapped (`None`).
    Owner(Option<String>),
    /// DDC/CI is disabled in the OSD — the panel can be neither read nor switched over the wire.
    DdcDisabled,
    /// The panel can't be read and no online peer can drive it — stranded.
    Stranded,
}

/// A monitor whose believed owner changed during reconciliation.
#[derive(Debug, Clone, PartialEq, Eq)]
pub struct ReconcileChange {
    pub monitor_id: String,
    pub previous_owner: Option<String>,
    pub new_owner: Option<String>,
}

/// A change, viewed: (monitor, previous owner, new owner).
pub type ChangeView = (Seq<char>, Option<Seq<char>>, Option<Seq<char>>);

impl View for ReconcileChange {
    type V = ChangeView;

    open spec fn view(&self) -> ChangeView {
        (self.monitor_id@, opt_view(self.previous_owner), opt_view(self.new_owner))
    }
}

/// The record a live read establishes at `now_ms`.
pub open spec fn read_record(read: LiveRead, now_ms: u64) -> RecordView {
    match read {
        LiveRead::Owner(o) => gossip_record(opt_view(o), now_ms),
        LiveRead::DdcDisabled => RecordView { owner: None, updated_ms: now_ms, state: OwnershipState::DdcDisabled },
        LiveRead::Stranded => RecordView { owner: None, updated_ms: now_ms, state: OwnershipState::Stranded },
    }
}

/// The believed owner of `monitor` in `m`.
pub open spec fn owner_in(m: Map<Seq<char>, RecordView>, monitor: Seq<char>) -> Option<Seq<char>> {
    if m.contains_key(monitor) {
        m[monitor].owner
    } else {
        None
    }
}

/// The ownership map after applying the first `n` reads.
pub open spec fn fold_reads(m0: Map<Seq<char>, RecordView>, reads: Seq<(String, LiveRead)>, now_ms: u64, n: nat) -> Map<
    Seq<char>,
    RecordView,
>
    decreases n,
{
    if n == 0 {
        m0
    } else {
        apply_spec(
            fold_reads(m0, reads, now_ms, (n - 1) as nat),
            reads[n - 1].0@,
            read_record(reads[n - 1].1, now_ms),
        )
    }
}

/// The owner changes reported while applying the first `n` reads, in order.
pub open spec fn fold_changes(m0: Map<Seq<char>, RecordView>, reads: Seq<(String, LiveRead)>, now_ms: u64, n: nat) -> Seq<
    ChangeView,
>
    decreases n,
{
    if n == 0 {
        seq![]
    } else {
        let before = fold_reads(m0, reads, now_ms, (n - 1) as nat);
        let after = fold_reads(m0, reads, now_ms, n);
        let k = reads[n - 1].0@;
        let prev = fold_changes(m0, reads, now_ms, (n - 1) as nat);
        if owner_in(before, k) != owner_in(after, k) {
            prev.push((k, owner_in(before, k), owner_in(after, k)))
        } else {
            prev
        }
    }
}

/// What one `reconcile_one` call does to a map viewed as `m`: the new map and the change it
/// reports, if the owner changed.
pub open spec fn one_step(m: Map<Seq<char>, RecordView>, monitor: Seq<char>, read: LiveRead, now_ms: u64) -> (
    Map<Seq<char>, RecordView>,
    Option<ChangeView>,
) {
    let after = apply_spec(m, monitor, read_record(read, now_ms));
    (after, if owner_in(m, monitor) != owner_in(after, monitor) {
        Some((monitor, owner_in(m, monitor), owner_in(after, monitor)))
    } else {
        None
    })
}

/// `reconcile_one` called on each of the first `n` reads in turn: the final map and the changes
/// that the calls returned, in order.
pub open spec fn repeated_one(m0: Map<Seq<char>, RecordView>, reads: Seq<(String, LiveRead)>, now_ms: u64, n: nat) -> (
    Map<Seq<char>, RecordView>,
    Seq<ChangeView>,
)
    decreases n,
{
    if n == 0 {
        (m0, seq![])
    } else {
        let prev = repeated_one(m0, reads, now_ms, (n - 1) as nat);
        let step = one_step(prev.0, reads[n - 1].0@, reads[n - 1].1, now_ms);
        (step.0, match step.1 {
            Some(c) => prev.1.push(c),
            None => prev.1,
        })
    }
}

/// Reconciling a batch is the same as calling `reconcile_one` on each read in order and
/// collecting the changes it reports: same final map, same changes in read order.
pub proof fn lemma_reconcile_all_is_repeated_one(
    m0: Map<Seq<char>, RecordView>,
    reads: Seq<(String, LiveRead)>,
    now_ms: u64,
    n: nat,
)
    requires
        n <= reads.len(),
    ensures
        fold_reads(m0, reads, now_ms, n) == repeated_one(m0, reads, now_ms, n).0,
        fold_changes(m0, reads, now_ms, n) == repeated_one(m0, reads, now_ms, n).1,
    decreases n,
{
    if n > 0 {
        lemma_reconcile_all_is_repeated_one(m0, reads, now_ms, (n - 1) as nat);
    }
}

fn owned_owner(map: &OwnershipMap, monitor_id: &str) -> (o: Option<String>)
    requires
        map.wf(),
    ensures
        opt_view(o) == owner_in(map@, monitor_id@),
{
    match map.owner(monitor_id) {
        Some(s) => Some(s.to_owned()),
        None => None,
    }
}

fn opt_str_eq(a: &Option<String>, b: &Option<String>) -> (r: bool)
    ensures
        r == (opt_view(*a) == opt_view(*b)),
{
    match (a, b) {
        (Some(x), Some(y)) => crate::text::str_eq(x.as_str(), y.as_str()),
        (None, None) => true,
        _ => false,
    }
}

/// Apply one live read for `monitor_id` at `now_ms`. Returns `Some(change)` exactly when the
/// believed owner changed as a result.
pub fn reconcile_one(map: &mut OwnershipMap, monitor_id: &str, read: &LiveRead, now_ms: u64) -> (r: Option<ReconcileChange>)
    requires
        old(map).wf(),
    ensures
        final(map).wf(),
        final(map)@ == apply_spec(old(map)@, monitor_id@, read_record(*read, now_ms)),
        match r {
            Some(c) => c@ == (monitor_id@, owner_in(old(map)@, monitor_id@), owner_in(final(map)@, monitor_id@))
                && owner_in(old(map)@, monitor_id@) != owner_in(final(map)@, monitor_id@),
            None => owner_in(old(map)@, monitor_id@) == owner_in(final(map)@, monitor_id@),
        },
        (final(map)@, match r { Some(c) => Some(c@), None => None }) == one_step(old(map)@, monitor_id@, *read, now_ms),
{
    let previous_owner = owned_owner(map, monitor_id);
    match read {
        LiveRead::Owner(owner) => {
            let o = match owner {
                Some(s) => Some(s.clone()),
                None => None,
            };
            map.observe(monitor_id, o, now_ms);
        },
        LiveRead::DdcDisabled => {
            map.mark_ddc_disabled(monitor_id, now_ms);
        },
        LiveRead::Stranded => {
            map.mark_stranded(monitor_id, now_ms);
        },
    }
    let new_owner = owned_owner(map, monitor_id);
    if opt_str_eq(&previous_owner, &new_owner) {
        None
    } else {
        Some(ReconcileChange { monitor_id: monitor_id.to_owned(), previous_owner, new_owner })
    }
}

/// Reconcile a batch of live reads — one periodic sweep, or the reads triggered by a single
/// display-change event. Returns the monitors whose owner changed, in read order.
pub fn reconcile_all(map: &mut OwnershipMap, reads: &[(String, LiveRead)], now_ms: u64) -> (changes: Vec<ReconcileChange>)
    requires
        old(map).wf(),
    ensures
        final(map).wf(),
        final(map)@ == fold_reads(old(map)@, reads@, now_ms, reads@.len()),
        changes@.map_values(|c: ReconcileChange| c@) == fold_changes(old(map)@, reads@, now_ms, reads@.len()),
{
    let ghost m0 = map@;
    let mut changes: Vec<ReconcileChange> = Vec::new();
    let mut i: usize = 0;
    while i < reads.len()
        invariant
            i <= reads@.len(),
            map.wf(),
            map@ == fold_reads(m0, reads@, now_ms, i as nat),
            changes@.map_values(|c: ReconcileChange| c@) == fold_changes(m0, reads@, now_ms, i as nat),
        decreases reads@.len() - i,
    {
        let ghost before = changes@;
        match reconcile_one(map, reads[i].0.as_str(), &reads[i].1, now_ms) {
            Some(c) => {
                changes.push(c);
                proof {
                    assert(changes@.map_values(|c: ReconcileChange| c@) =~= before.map_values(
                        |c: ReconcileChange| c@,
                    ).push(c@));
                }
            },
            None => {},
        }
        i = i + 1;
    }
    changes
}

} // verus!
