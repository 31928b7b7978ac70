//! Panel-global DDC/CI quirks, merged from three layers with precedence
//! **user > local-learned > shipped**.
//!
//! A quirk can only ever restrict behavior: `blocked_input_values` is additive across layers (a
//! higher layer can add to, but never remove from, the blocked set), and nothing here authorizes
//! a `0x60` write — only the values captured locally for the selected monitor may be written.

use std::collections::HashSet;
use crate::ownership::opt_view;
use crate::strmap::StrMap;
use crate::text::str_eq;
use crate::types::ActuationPolicy;
use vstd::prelude::*;
use vstd::string::StrSliceExecFns;

verus! {

broadcast use vstd::std_specs::hash::group_hash_axioms;

/// Historical direction hint retained for compatibility with existing quirk files. It never
/// authorizes or routes a write.
#[derive(Debug, Clone, Copy, PartialEq, Eq, Structural)]
pub enum WorkingDirection {
    PullToSelf,
    PushRelease,
}

/// Panel-global facts for one monitor model/id. Every field is optional so a layer overrides only
/// what it actually specifies (field-level merge).
#[derive(Debug, Default, PartialEq)]
pub struct Quirk {
    pub working_direction: Option<WorkingDirection>,
    pub readback_unreliable: Option<bool>,
    pub settle_ms: Option<u32>,
    /// The `f32` bit pattern (`f32::to_bits`) of the sleep multiplier; carried, never computed on.
    pub sleep_multiplier: Option<u32>,
    pub ddc_off_by_default: Option<bool>,
    pub requires_active_input: Option<bool>,
    /// Values that must NEVER be written to this panel. Additive across layers.
    pub blocked_input_values: Vec<u32>,
    pub pbp_capable: Option<bool>,
    pub source: Option<String>,
}

/// Mathematical view of a quirk.
pub struct QuirkView {
    pub working_direction: Option<WorkingDirection>,
    pub readback_unreliable: Option<bool>,
    pub settle_ms: Option<u32>,
    pub sleep_multiplier: Option<u32>,
    pub ddc_off_by_default: Option<bool>,
    pub requires_active_input: Option<bool>,
    pub blocked: Seq<u32>,
    pub pbp_capable: Option<bool>,
    pub source: Option<Seq<char>>,
}

impl View for Quirk {
    type V = QuirkView;

    open spec fn view(&self) -> QuirkView {
        QuirkView {
            working_direction: self.working_direction,
            readback_unreliable: self.readback_unreliable,
            settle_ms: self.settle_ms,
            sleep_multiplier: self.sleep_multiplier,
            ddc_off_by_default: self.ddc_off_by_default,
            requires_active_input: self.requires_active_input,
            blocked: self.blocked_input_values@,
            pbp_capable: self.pbp_capable,
            source: opt_view(self.source),
        }
    }
}

/// The all-`None`, nothing-blocked quirk.
pub open spec fn empty_quirk() -> QuirkView {
    QuirkView {
        working_direction: None,
        readback_unreliable: None,
        settle_ms: None,
        sleep_multiplier: None,
        ddc_off_by_default: None,
        requires_active_input: None,
        blocked: seq![],
        pbp_capable: None,
        source: None,
    }
}

/// `a` followed by the values of `b` not already present, each once, in order.
pub open spec fn union_append(a: Seq<u32>, b: Seq<u32>) -> Seq<u32>
    decreases b.len(),
{
    if b.len() == 0 {
        a
    } else {
        let prev = union_append(a, b.drop_last());
        if prev.contains(b.last()) {
            prev
        } else {
            prev.push(b.last())
        }
    }
}

/// The value of `higher` where it is present, else `lower`'s.
pub open spec fn pick<T>(lower: Option<T>, higher: Option<T>) -> Option<T> {
    if higher is Some {
        higher
    } else {
        lower
    }
}

/// Overlay `higher` (higher precedence) onto `lower`: present scalar fields win; the blocked set
/// is unioned and never shrinks.
pub open spec fn overlay_spec(lower: QuirkView, higher: QuirkView) -> QuirkView {
    QuirkView {
        working_direction: pick(lower.working_direction, higher.working_direction),
        readback_unreliable: pick(lower.readback_unreliable, higher.readback_unreliable),
        settle_ms: pick(lower.settle_ms, higher.settle_ms),
        sleep_multiplier: pick(lower.sleep_multiplier, higher.sleep_multiplier),
        ddc_off_by_default: pick(lower.ddc_off_by_default, higher.ddc_off_by_default),
        requires_active_input: pick(lower.requires_active_input, higher.requires_active_input),
        blocked: union_append(lower.blocked, higher.blocked),
        pbp_capable: pick(lower.pbp_capable, higher.pbp_capable),
        source: pick(lower.source, higher.source),
    }
}

/// The union of blocked values contains exactly the values of both sides, and keeps the lower
/// side as a prefix: overlaying never unblocks a value.
pub proof fn lemma_union_append(a: Seq<u32>, b: Seq<u32>)
    ensures
        forall|v: u32| #[trigger] union_append(a, b).contains(v) <==> (a.contains(v) || b.contains(v)),
        union_append(a, b).len() >= a.len(),
        union_append(a, b).subrange(0, a.len() as int) == a,
    decreases b.len(),
{
    if b.len() > 0 {
        lemma_union_append(a, b.drop_last());
        let prev = union_append(a, b.drop_last());
        assert forall|v: u32| #[trigger] union_append(a, b).contains(v) <==> (a.contains(v) || b.contains(v)) by {
            if b.drop_last().contains(v) {
                let i = choose|i: int| 0 <= i < b.drop_last().len() && b.drop_last()[i] == v;
                assert(b[i] == v);
            }
            if b.contains(v) && v != b.last() {
                let i = choose|i: int| 0 <= i < b.len() && b[i] == v;
                assert(b.drop_last()[i] == v);
            }
            if !prev.contains(b.last()) {
                assert(prev.push(b.last())[prev.len() as int] == b.last());
                if prev.contains(v) {
                    let i = choose|i: int| 0 <= i < prev.len() && prev[i] == v;
                    assert(prev.push(b.last())[i] == v);
                }
                if prev.push(b.last()).contains(v) && v != b.last() {
                    let i = choose|i: int| 0 <= i < prev.len() + 1 && prev.push(b.last())[i] == v;
                    assert(prev[i] == v);
                }
            }
        }
        if !prev.contains(b.last()) {
            assert(prev.push(b.last()).subrange(0, a.len() as int) =~= prev.subrange(0, a.len() as int));
        }
    } else {
        assert(a.subrange(0, a.len() as int) =~= a);
    }
}

/// Overlaying keeps every value blocked below and adds every value blocked above.
pub proof fn lemma_overlay_never_unblocks(lower: QuirkView, higher: QuirkView, v: u32)
    ensures
        overlay_spec(lower, higher).blocked.contains(v) <==> (lower.blocked.contains(v) || higher.blocked.contains(v)),
{
    lemma_union_append(lower.blocked, higher.blocked);
}

fn vec_contains(v: &Vec<u32>, x: u32) -> (b: bool)
    ensures
        b == v@.contains(x),
{
    let mut i: usize = 0;
    while i < v.len()
        invariant
            i <= v@.len(),
            forall|j: int| 0 <= j < i ==> v@[j] != x,
        decreases v@.len() - i,
    {
        if v[i] == x {
            return true;
        }
        i = i + 1;
    }
    false
}

impl Clone for Quirk {
    fn clone(&self) -> (r: Self)
        ensures
            r@ == self@,
    {
        let mut blocked: Vec<u32> = Vec::new();
        let mut i: usize = 0;
        while i < self.blocked_input_values.len()
            invariant
                i <= self.blocked_input_values@.len(),
                blocked@ == self.blocked_input_values@.subrange(0, i as int),
            decreases self.blocked_input_values@.len() - i,
        {
            blocked.push(self.blocked_input_values[i]);
            proof {
                assert(blocked@ =~= self.blocked_input_values@.subrange(0, i + 1));
            }
            i = i + 1;
        }
        proof {
            assert(blocked@ =~= self.blocked_input_values@);
        }
        Quirk {
            working_direction: self.working_direction,
            readback_unreliable: self.readback_unreliable,
            settle_ms: self.settle_ms,
            sleep_multiplier: self.sleep_multiplier,
            ddc_off_by_default: self.ddc_off_by_default,
            requires_active_input: self.requires_active_input,
            blocked_input_values: blocked,
            pbp_capable: self.pbp_capable,
            source: match &self.source {
                Some(s) => Some(s.clone()),
                None => None,
            },
        }
    }
}

impl Quirk {
    /// The all-`None`, nothing-blocked quirk.
    pub fn empty() -> (q: Self)
        ensures
            q@ == empty_quirk(),
    {
        let q = Quirk {
            working_direction: None,
            readback_unreliable: None,
            settle_ms: None,
            sleep_multiplier: None,
            ddc_off_by_default: None,
            requires_active_input: None,
            blocked_input_values: Vec::new(),
            pbp_capable: None,
            source: None,
        };
        assert(q@.blocked =~= seq![]);
        q
    }

    /// Overlay `higher` (higher precedence) onto `self`: present scalar fields win; the blocked
    /// set is unioned and never shrinks.
    pub fn overlay(&mut self, higher: &Quirk)
        ensures
            final(self)@ == overlay_spec(old(self)@, higher@),
    {
        if higher.working_direction.is_some() {
            self.working_direction = higher.working_direction;
        }
        if higher.readback_unreliable.is_some() {
            self.readback_unreliable = higher.readback_unreliable;
        }
        if higher.settle_ms.is_some() {
            self.settle_ms = higher.settle_ms;
        }
        if higher.sleep_multiplier.is_some() {
            self.sleep_multiplier = higher.sleep_multiplier;
        }
        if higher.ddc_off_by_default.is_some() {
            self.ddc_off_by_default = higher.ddc_off_by_default;
        }
        if higher.requires_active_input.is_some() {
            self.requires_active_input = higher.requires_active_input;
        }
        if higher.pbp_capable.is_some() {
            self.pbp_capable = higher.pbp_capable;
        }
        match &higher.source {
            Some(s) => {
                self.source = Some(s.clone());
            },
            None => {},
        }
        let ghost base = old(self).blocked_input_values@;
        let mut acc: Vec<u32> = Vec::new();
        std::mem::swap(&mut acc, &mut self.blocked_input_values);
        let hb = &higher.blocked_input_values;
        let mut i: usize = 0;
        proof {
            assert(hb@.subrange(0, 0) =~= Seq::<u32>::empty());
        }
        while i < hb.len()
            invariant
                i <= hb@.len(),
                hb@ == higher.blocked_input_values@,
                acc@ == union_append(base, hb@.subrange(0, i as int)),
            decreases hb@.len() - i,
        {
            let v = hb[i];
            proof {
                assert(hb@.subrange(0, i + 1).drop_last() =~= hb@.subrange(0, i as int));
                assert(hb@.subrange(0, i + 1).last() == v);
            }
            if !vec_contains(&acc, v) {
                acc.push(v);
            }
            i = i + 1;
        }
        proof {
            assert(hb@.subrange(0, hb@.len() as int) =~= hb@);
        }
        self.blocked_input_values = acc;
    }

    /// Apply this (merged) quirk's safety/behavior facts to an actuation policy: the blocked
    /// values enter the soft-brick guard; settle time and read-back reliability are taken when
    /// present. It never adds a confirmed value.
    pub fn apply_to_policy(&self, policy: &mut ActuationPolicy)
        ensures
            final(policy).confirmed_values@ == old(policy).confirmed_values@,
            final(policy).blocked_values@ == old(policy).blocked_values@ + self.blocked_input_values@.to_set(),
            final(policy).settle_ms == (match self.settle_ms {
                Some(ms) => ms,
                None => old(policy).settle_ms,
            }),
            final(policy).readback_reliable == (match self.readback_unreliable {
                Some(u) => !u,
                None => old(policy).readback_reliable,
            }),
            final(policy).max_attempts == old(policy).max_attempts,
            final(policy).backoff_ms == old(policy).backoff_ms,
            final(policy).ceiling_ms == old(policy).ceiling_ms,
    {
        let ghost b0 = policy.blocked_values@;
        let mut i: usize = 0;
        while i < self.blocked_input_values.len()
            invariant
                i <= self.blocked_input_values@.len(),
                policy.confirmed_values@ == old(policy).confirmed_values@,
                policy.blocked_values@ == b0 + self.blocked_input_values@.subrange(0, i as int).to_set(),
                policy.settle_ms == old(policy).settle_ms,
                policy.readback_reliable == old(policy).readback_reliable,
                policy.max_attempts == old(policy).max_attempts,
                policy.backoff_ms == old(policy).backoff_ms,
                policy.ceiling_ms == old(policy).ceiling_ms,
                b0 == old(policy).blocked_values@,
            decreases self.blocked_input_values@.len() - i,
        {
            let v = self.blocked_input_values[i];
            policy.blocked_values.insert(v);
            proof {
                let s = self.blocked_input_values@;
                assert(s.subrange(0, i + 1) =~= s.subrange(0, i as int).push(v));
                s.subrange(0, i as int).lemma_push_to_set_commute(v);
                assert(policy.blocked_values@ =~= b0 + s.subrange(0, i + 1).to_set());
            }
            i = i + 1;
        }
        proof {
            assert(self.blocked_input_values@.subrange(0, self.blocked_input_values@.len() as int) =~= self.blocked_input_values@);
        }
        match self.settle_ms {
            Some(ms) => {
                policy.settle_ms = ms;
            },
            None => {},
        }
        match self.readback_unreliable {
            Some(u) => {
                policy.readback_reliable = !u;
            },
            None => {},
        }
    }
}

/// The merged quirk for `key` over the three layers.
pub open spec fn merged_spec(
    shipped: Map<Seq<char>, QuirkView>,
    local: Map<Seq<char>, QuirkView>,
    user: Map<Seq<char>, QuirkView>,
    key: Seq<char>,
) -> QuirkView {
    let base = if shipped.contains_key(key) { shipped[key] } else { empty_quirk() };
    let with_local = if local.contains_key(key) { overlay_spec(base, local[key]) } else { base };
    if user.contains_key(key) { overlay_spec(with_local, user[key]) } else { with_local }
}

/// The view of an optional `&str`.
pub open spec fn opt_str_view(o: Option<&str>) -> Option<Seq<char>> {
    match o {
        Some(s) => Some(s@),
        None => None,
    }
}

/// `p` is the policy for `monitor_id` (with optional model token): the allow-list is exactly
/// `confirmed`; the blocked set is the union of the model's and the exact id's merged blocked
/// values; the exact id's scalar behavior overlays the model's; timing defaults otherwise.
pub open spec fn monitor_policy(
    db: QuirksDb,
    monitor_id: Seq<char>,
    model_token: Option<Seq<char>>,
    confirmed: Seq<u32>,
    p: ActuationPolicy,
) -> bool {
    let model = match model_token {
        Some(t) => if t != monitor_id {
            db.merged_view(t)
        } else {
            empty_quirk()
        },
        None => empty_quirk(),
    };
    let combined = overlay_spec(model, db.merged_view(monitor_id));
    &&& p.confirmed_values@ == confirmed.to_set()
    &&& p.blocked_values@ == combined.blocked.to_set()
    &&& p.settle_ms == (match combined.settle_ms {
        Some(ms) => ms,
        None => crate::types::DEFAULT_SETTLE_MS,
    })
    &&& p.readback_reliable == (match combined.readback_unreliable {
        Some(u) => !u,
        None => true,
    })
    &&& p.max_attempts == crate::types::DEFAULT_MAX_ATTEMPTS
    &&& p.backoff_ms == crate::types::DEFAULT_BACKOFF_MS
    &&& p.ceiling_ms == crate::types::DEFAULT_CEILING_MS
}

/// Layered quirks database.
#[derive(Debug)]
pub struct QuirksDb {
    shipped: StrMap<Quirk>,
    local: StrMap<Quirk>,
    user: StrMap<Quirk>,
}

impl Default for QuirksDb {
    fn default() -> (db: Self)
        ensures
            db.wf(),
            db.shipped_layer() == Map::<Seq<char>, QuirkView>::empty(),
            db.local_layer() == Map::<Seq<char>, QuirkView>::empty(),
            db.user_layer() == Map::<Seq<char>, QuirkView>::empty(),
    {
        QuirksDb::new()
    }
}

/// A layer, viewed.
pub open spec fn layer_view(m: Map<Seq<char>, Quirk>) -> Map<Seq<char>, QuirkView> {
    m.map_values(|q: Quirk| q@)
}

impl QuirksDb {
    pub closed spec fn wf(&self) -> bool {
        self.shipped.wf() && self.local.wf() && self.user.wf()
    }

    pub closed spec fn shipped_layer(&self) -> Map<Seq<char>, QuirkView> {
        layer_view(self.shipped@)
    }

    pub closed spec fn local_layer(&self) -> Map<Seq<char>, QuirkView> {
        layer_view(self.local@)
    }

    pub closed spec fn user_layer(&self) -> Map<Seq<char>, QuirkView> {
        layer_view(self.user@)
    }

    /// The merged quirk of `key`.
    pub open spec fn merged_view(&self, key: Seq<char>) -> QuirkView {
        merged_spec(self.shipped_layer(), self.local_layer(), self.user_layer(), key)
    }

    /// An empty database (no layer holds anything).
    pub fn new() -> (db: Self)
        ensures
            db.wf(),
            db.shipped_layer() == Map::<Seq<char>, QuirkView>::empty(),
            db.local_layer() == Map::<Seq<char>, QuirkView>::empty(),
            db.user_layer() == Map::<Seq<char>, QuirkView>::empty(),
    {
        let db = QuirksDb { shipped: StrMap::new(), local: StrMap::new(), user: StrMap::new() };
        assert(db.shipped_layer() =~= Map::<Seq<char>, QuirkView>::empty());
        assert(db.local_layer() =~= Map::<Seq<char>, QuirkView>::empty());
        assert(db.user_layer() =~= Map::<Seq<char>, QuirkView>::empty());
        db
    }

    /// A database whose three layers are the given (already parsed) layers.
    pub fn from_layers(shipped: StrMap<Quirk>, local: StrMap<Quirk>, user: StrMap<Quirk>) -> (db: Self)
        requires
            shipped.wf(),
            local.wf(),
            user.wf(),
        ensures
            db.wf(),
            db.shipped_layer() == layer_view(shipped@),
            db.local_layer() == layer_view(local@),
            db.user_layer() == layer_view(user@),
    {
        QuirksDb { shipped, local, user }
    }

    /// Replace the local-learned layer (as loaded from its file).
    pub fn replace_local(&mut self, layer: StrMap<Quirk>)
        requires
            old(self).wf(),
            layer.wf(),
        ensures
            final(self).wf(),
            final(self).local_layer() == layer_view(layer@),
            final(self).shipped_layer() == old(self).shipped_layer(),
            final(self).user_layer() == old(self).user_layer(),
    {
        self.local = layer;
    }

    /// Replace the user override layer (as loaded from its file).
    pub fn replace_user(&mut self, layer: StrMap<Quirk>)
        requires
            old(self).wf(),
            layer.wf(),
        ensures
            final(self).wf(),
            final(self).user_layer() == layer_view(layer@),
            final(self).shipped_layer() == old(self).shipped_layer(),
            final(self).local_layer() == old(self).local_layer(),
    {
        self.user = layer;
    }

    /// The merged quirk for `key` (a monitor id or model token). Always returns a value — the
    /// empty quirk when nothing is known.
    pub fn merged(&self, key: &str) -> (q: Quirk)
        requires
            self.wf(),
        ensures
            q@ == self.merged_view(key@),
    {
        let mut q = match self.shipped.get(key) {
            Some(s) => s.clone(),
            None => Quirk::empty(),
        };
        match self.local.get(key) {
            Some(l) => q.overlay(l),
            None => {},
        }
        match self.user.get(key) {
            Some(u) => q.overlay(u),
            None => {},
        }
        q
    }

    /// Insert or replace a quirk in the local-learned layer in memory (above shipped, below user).
    pub fn set_local(&mut self, key: String, quirk: Quirk)
        requires
            old(self).wf(),
        ensures
            final(self).wf(),
            final(self).local_layer() == old(self).local_layer().insert(key@, quirk@),
            final(self).shipped_layer() == old(self).shipped_layer(),
            final(self).user_layer() == old(self).user_layer(),
    {
        let ghost kv = key@;
        let ghost qv = quirk@;
        self.local.insert(key, quirk);
        proof {
            assert(self.local_layer() =~= old(self).local_layer().insert(kv, qv));
        }
    }

    /// Build a policy for `key` from the locally captured allow-list plus the merged quirk.
    pub fn policy_for(&self, key: &str, confirmed_values: &[u32]) -> (p: ActuationPolicy)
        requires
            self.wf(),
        ensures
            monitor_policy(*self, key@, None, confirmed_values@, p),
    {
        self.policy_for_monitor(key, None, confirmed_values)
    }

    /// Build a policy from a model-wide key followed by the exact monitor id. The allow-list is
    /// exactly `confirmed_values`; blocked values are additive across both scopes; scalar
    /// behavior of the exact id overlays the model's.
    pub fn policy_for_monitor(&self, monitor_id: &str, model_token: Option<&str>, confirmed_values: &[u32]) -> (p: ActuationPolicy)
        requires
            self.wf(),
        ensures
            monitor_policy(*self, monitor_id@, opt_str_view(model_token), confirmed_values@, p),
    {
        let empty: [u32; 0] = [];
        let mut policy = ActuationPolicy::new(confirmed_values, empty.as_slice());
        let mut combined = match model_token {
            Some(token) => {
                if !str_eq(token, monitor_id) {
                    self.merged(token)
                } else {
                    Quirk::empty()
                }
            },
            None => Quirk::empty(),
        };
        let exact = self.merged(monitor_id);
        combined.overlay(&exact);
        proof {
            assert(empty@.to_set() =~= Set::<u32>::empty());
            assert(Set::<u32>::empty() + combined.blocked_input_values@.to_set() =~= combined.blocked_input_values@.to_set());
        }
        combined.apply_to_policy(&mut policy);
        policy
    }
}


/// Top-level keys of a quirks layer that start with `_` are metadata (comments, schema notes)
/// and are skipped rather than parsed as quirk entries.
pub fn is_metadata_key(key: &str) -> (b: bool)
    ensures
        b == (key@.len() > 0 && key@[0] == '_'),
{
    key.unicode_len() > 0 && key.get_char(0) == '_'
}


/// Overlay precedence: every scalar field that the higher layer has present is taken from it,
/// every field it leaves absent keeps the lower layer's value, and a value is blocked after the
/// overlay exactly when either layer blocks it.
pub proof fn lemma_overlay_higher_wins(lower: QuirkView, higher: QuirkView)
    ensures
        higher.working_direction is Some ==> overlay_spec(lower, higher).working_direction == higher.working_direction,
        higher.working_direction is None ==> overlay_spec(lower, higher).working_direction == lower.working_direction,
        higher.readback_unreliable is Some ==> overlay_spec(lower, higher).readback_unreliable == higher.readback_unreliable,
        higher.readback_unreliable is None ==> overlay_spec(lower, higher).readback_unreliable == lower.readback_unreliable,
        higher.settle_ms is Some ==> overlay_spec(lower, higher).settle_ms == higher.settle_ms,
        higher.settle_ms is None ==> overlay_spec(lower, higher).settle_ms == lower.settle_ms,
        higher.sleep_multiplier is Some ==> overlay_spec(lower, higher).sleep_multiplier == higher.sleep_multiplier,
        higher.sleep_multiplier is None ==> overlay_spec(lower, higher).sleep_multiplier == lower.sleep_multiplier,
        higher.ddc_off_by_default is Some ==> overlay_spec(lower, higher).ddc_off_by_default == higher.ddc_off_by_default,
        higher.ddc_off_by_default is None ==> overlay_spec(lower, higher).ddc_off_by_default == lower.ddc_off_by_default,
        higher.requires_active_input is Some ==> overlay_spec(lower, higher).requires_active_input == higher.requires_active_input,
        higher.requires_active_input is None ==> overlay_spec(lower, higher).requires_active_input == lower.requires_active_input,
        higher.pbp_capable is Some ==> overlay_spec(lower, higher).pbp_capable == higher.pbp_capable,
        higher.pbp_capable is None ==> overlay_spec(lower, higher).pbp_capable == lower.pbp_capable,
        higher.source is Some ==> overlay_spec(lower, higher).source == higher.source,
        higher.source is None ==> overlay_spec(lower, higher).source == lower.source,
        forall|v: u32| #[trigger] overlay_spec(lower, higher).blocked.contains(v) <==> (lower.blocked.contains(v)
            || higher.blocked.contains(v)),
{
    lemma_union_append(lower.blocked, higher.blocked);
}

/// The quirk a layer holds for `key`, or the empty quirk.
pub open spec fn layer_quirk(layer: Map<Seq<char>, QuirkView>, key: Seq<char>) -> QuirkView {
    if layer.contains_key(key) { layer[key] } else { empty_quirk() }
}

/// Layer precedence of a merged quirk: each scalar field comes from the user layer when it has
/// it, else from the local layer when it has it, else from the shipped layer; a value is blocked
/// exactly when some layer blocks it.
pub proof fn lemma_merged_layer_precedence(
    shipped: Map<Seq<char>, QuirkView>,
    local: Map<Seq<char>, QuirkView>,
    user: Map<Seq<char>, QuirkView>,
    key: Seq<char>,
)
    ensures
        layer_quirk(user, key).working_direction is Some ==> merged_spec(shipped, local, user, key).working_direction == layer_quirk(user, key).working_direction,
        layer_quirk(user, key).working_direction is None && layer_quirk(local, key).working_direction is Some ==> merged_spec(shipped, local, user, key).working_direction == layer_quirk(local, key).working_direction,
        layer_quirk(user, key).working_direction is None && layer_quirk(local, key).working_direction is None ==> merged_spec(shipped, local, user, key).working_direction == layer_quirk(shipped, key).working_direction,
        layer_quirk(user, key).readback_unreliable is Some ==> merged_spec(shipped, local, user, key).readback_unreliable == layer_quirk(user, key).readback_unreliable,
        layer_quirk(user, key).readback_unreliable is None && layer_quirk(local, key).readback_unreliable is Some ==> merged_spec(shipped, local, user, key).readback_unreliable == layer_quirk(local, key).readback_unreliable,
        layer_quirk(user, key).readback_unreliable is None && layer_quirk(local, key).readback_unreliable is None ==> merged_spec(shipped, local, user, key).readback_unreliable == layer_quirk(shipped, key).readback_unreliable,
        layer_quirk(user, key).settle_ms is Some ==> merged_spec(shipped, local, user, key).settle_ms == layer_quirk(user, key).settle_ms,
        layer_quirk(user, key).settle_ms is None && layer_quirk(local, key).settle_ms is Some ==> merged_spec(shipped, local, user, key).settle_ms == layer_quirk(local, key).settle_ms,
        layer_quirk(user, key).settle_ms is None && layer_quirk(local, key).settle_ms is None ==> merged_spec(shipped, local, user, key).settle_ms == layer_quirk(shipped, key).settle_ms,
        layer_quirk(user, key).sleep_multiplier is Some ==> merged_spec(shipped, local, user, key).sleep_multiplier == layer_quirk(user, key).sleep_multiplier,
        layer_quirk(user, key).sleep_multiplier is None && layer_quirk(local, key).sleep_multiplier is Some ==> merged_spec(shipped, local, user, key).sleep_multiplier == layer_quirk(local, key).sleep_multiplier,
        layer_quirk(user, key).sleep_multiplier is None && layer_quirk(local, key).sleep_multiplier is None ==> merged_spec(shipped, local, user, key).sleep_multiplier == layer_quirk(shipped, key).sleep_multiplier,
        layer_quirk(user, key).ddc_off_by_default is Some ==> merged_spec(shipped, local, user, key).ddc_off_by_default == layer_quirk(user, key).ddc_off_by_default,
        layer_quirk(user, key).ddc_off_by_default is None && layer_quirk(local, key).ddc_off_by_default is Some ==> merged_spec(shipped, local, user, key).ddc_off_by_default == layer_quirk(local, key).ddc_off_by_default,
        layer_quirk(user, key).ddc_off_by_default is None && layer_quirk(local, key).ddc_off_by_default is None ==> merged_spec(shipped, local, user, key).ddc_off_by_default == layer_quirk(shipped, key).ddc_off_by_default,
        layer_quirk(user, key).requires_active_input is Some ==> merged_spec(shipped, local, user, key).requires_active_input == layer_quirk(user, key).requires_active_input,
        layer_quirk(user, key).requires_active_input is None && layer_quirk(local, key).requires_active_input is Some ==> merged_spec(shipped, local, user, key).requires_active_input == layer_quirk(local, key).requires_active_input,
        layer_quirk(user, key).requires_active_input is None && layer_quirk(local, key).requires_active_input is None ==> merged_spec(shipped, local, user, key).requires_active_input == layer_quirk(shipped, key).requires_active_input,
        layer_quirk(user, key).pbp_capable is Some ==> merged_spec(shipped, local, user, key).pbp_capable == layer_quirk(user, key).pbp_capable,
        layer_quirk(user, key).pbp_capable is None && layer_quirk(local, key).pbp_capable is Some ==> merged_spec(shipped, local, user, key).pbp_capable == layer_quirk(local, key).pbp_capable,
        layer_quirk(user, key).pbp_capable is None && layer_quirk(local, key).pbp_capable is None ==> merged_spec(shipped, local, user, key).pbp_capable == layer_quirk(shipped, key).pbp_capable,
        layer_quirk(user, key).source is Some ==> merged_spec(shipped, local, user, key).source == layer_quirk(user, key).source,
        layer_quirk(user, key).source is None && layer_quirk(local, key).source is Some ==> merged_spec(shipped, local, user, key).source == layer_quirk(local, key).source,
        layer_quirk(user, key).source is None && layer_quirk(local, key).source is None ==> merged_spec(shipped, local, user, key).source == layer_quirk(shipped, key).source,
        forall|v: u32| #[trigger] merged_spec(shipped, local, user, key).blocked.contains(v) <==> (layer_quirk(
            shipped,
            key,
        ).blocked.contains(v) || layer_quirk(local, key).blocked.contains(v) || layer_quirk(user, key).blocked.contains(v)),
{
    let base = layer_quirk(shipped, key);
    lemma_overlay_higher_wins(base, layer_quirk(local, key));
    let with_local = if local.contains_key(key) { overlay_spec(base, local[key]) } else { base };
    lemma_overlay_higher_wins(with_local, layer_quirk(user, key));
    assert forall|v: u32| #[trigger] merged_spec(shipped, local, user, key).blocked.contains(v) <==> (layer_quirk(
        shipped,
        key,
    ).blocked.contains(v) || layer_quirk(local, key).blocked.contains(v) || layer_quirk(user, key).blocked.contains(v)) by {
        assert(!Seq::<u32>::empty().contains(v));
        assert(with_local.blocked.contains(v) <==> (base.blocked.contains(v) || layer_quirk(local, key).blocked.contains(v)));
    }
}

} // verus!
