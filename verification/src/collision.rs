//! Grouping enumerated monitors by their stable id, and deciding which id collisions the user
//! must label.

use crate::fingerprint::{ambiguous, MonitorFingerprint};
use crate::ownership::opt_view;
use crate::strmap::StrMap;
use crate::text::{sort_distinct_strings, str_eq, string_views, strictly_sorted};
use vstd::prelude::*;

verus! {

/// One enumerated panel: its fingerprint plus an out-of-band physical discriminator (the
/// platform's device path, GDI device name, or a stable position).
#[derive(Debug)]
pub struct EnumeratedPanel {
    pub fingerprint: MonitorFingerprint,
    /// Stable per-machine physical path/slot, when the platform exposes one.
    pub device_path: Option<String>,
}

impl EnumeratedPanel {
    pub fn new(fingerprint: MonitorFingerprint, device_path: Option<String>) -> (p: Self)
        ensures
            p.fingerprint == fingerprint,
            p.device_path == device_path,
    {
        EnumeratedPanel { fingerprint, device_path }
    }
}

/// The indices `i < n`, in increasing order, whose id is `k`.
pub open spec fn positions(ids: Seq<Seq<char>>, k: Seq<char>, n: nat) -> Seq<usize>
    decreases n,
{
    if n == 0 {
        seq![]
    } else {
        let p = positions(ids, k, (n - 1) as nat);
        if ids[n - 1] == k {
            p.push((n - 1) as usize)
        } else {
            p
        }
    }
}

/// `m` groups the indices of `ids` by id.
pub open spec fn groups_ids(m: Map<Seq<char>, Seq<usize>>, ids: Seq<Seq<char>>) -> bool {
    &&& forall|k: Seq<char>| #[trigger] m.contains_key(k) <==> ids.contains(k)
    &&& forall|k: Seq<char>| #[trigger] m.contains_key(k) ==> m[k] == positions(ids, k, ids.len())
}

/// The ids of a list of fingerprints.
pub open spec fn fingerprint_ids(fps: Seq<MonitorFingerprint>) -> Seq<Seq<char>> {
    fps.map_values(|f: MonitorFingerprint| f.id_spec())
}

/// The ids of a list of panels.
pub open spec fn panel_ids(panels: Seq<EnumeratedPanel>) -> Seq<Seq<char>> {
    panels.map_values(|p: EnumeratedPanel| p.fingerprint.id_spec())
}

/// The device path of a panel, viewed.
pub open spec fn path_of(p: EnumeratedPanel) -> Option<Seq<char>> {
    opt_view(p.device_path)
}

/// Whether the group `members` (indices into `panels`) must be labeled: with physical-path
/// evidence, when more than one distinct path occurs; without any, when the fingerprint carries
/// no per-unit serial.
pub open spec fn group_needs_label(panels: Seq<EnumeratedPanel>, members: Seq<usize>) -> bool {
    &&& members.len() > 1
    &&& if exists|a: int| 0 <= a < members.len() && #[trigger] path_of(panels[members[a] as int]) is Some {
        exists|a: int, b: int|
            0 <= a < members.len() && 0 <= b < members.len() && #[trigger] path_of(panels[members[a] as int]) is Some
                && #[trigger] path_of(panels[members[b] as int]) is Some && path_of(panels[members[a] as int])
                != path_of(panels[members[b] as int])
    } else {
        ambiguous(panels[members[0] as int].fingerprint.numeric_serial, opt_view(panels[members[0] as int].fingerprint.ascii_serial))
    }
}

/// The ids that must be labeled.
pub open spec fn needs_label(panels: Seq<EnumeratedPanel>, k: Seq<char>) -> bool {
    panel_ids(panels).contains(k) && group_needs_label(panels, positions(panel_ids(panels), k, panels.len()))
}

proof fn lemma_positions_bounds(ids: Seq<Seq<char>>, k: Seq<char>, n: nat)
    requires
        n <= ids.len(),
        ids.len() <= usize::MAX,
    ensures
        forall|a: int| 0 <= a < positions(ids, k, n).len() ==> #[trigger] positions(ids, k, n)[a] < n && ids[
            positions(ids, k, n)[a] as int] == k,
        ids.subrange(0, n as int).contains(k) ==> positions(ids, k, n).len() > 0,
    decreases n,
{
    if n > 0 {
        lemma_positions_bounds(ids, k, (n - 1) as nat);
        let p = positions(ids, k, (n - 1) as nat);
        assert forall|a: int| 0 <= a < positions(ids, k, n).len() implies #[trigger] positions(ids, k, n)[a] < n
            && ids[positions(ids, k, n)[a] as int] == k by {
            if a < p.len() {
                assert(positions(ids, k, n)[a] == p[a]);
            }
        }
        if ids.subrange(0, n as int).contains(k) && ids[n - 1] != k {
            let j = choose|j: int| 0 <= j < n && ids.subrange(0, n as int)[j] == k;
            assert(ids.subrange(0, n - 1)[j] == k);
        }
    }
}

/// Groups indices of `ids` by id value.
fn group_ids(ids: &Vec<String>) -> (m: StrMap<Vec<usize>>)
    ensures
        m.wf(),
        groups_ids(m@.map_values(|v: Vec<usize>| v@), string_views(ids@)),
{
    let ghost sv = string_views(ids@);
    let mut m: StrMap<Vec<usize>> = StrMap::new();
    let mut i: usize = 0;
    while i < ids.len()
        invariant
            i <= ids@.len(),
            sv == string_views(ids@),
            m.wf(),
            forall|k: Seq<char>| #[trigger] m@.contains_key(k) <==> sv.subrange(0, i as int).contains(k),
            forall|k: Seq<char>| #[trigger] m@.contains_key(k) ==> m@[k]@ == positions(sv, k, i as nat),
        decreases ids@.len() - i,
    {
        let id = &ids[i];
        proof {
            assert(sv[i as int] == id@);
            assert(sv.subrange(0, i + 1) =~= sv.subrange(0, i as int).push(id@));
        }
        let ghost before = m@;
        let list = match m.remove(id.as_str()) {
            Some(mut v) => {
                v.push(i);
                v
            },
            None => {
                let mut v: Vec<usize> = Vec::new();
                v.push(i);
                v
            },
        };
        m.insert(id.clone(), list);
        proof {
            let s0 = sv.subrange(0, i as int);
            let s1 = sv.subrange(0, i + 1);
            assert forall|k: Seq<char>| #[trigger] m@.contains_key(k) <==> s1.contains(k) by {
                if s0.contains(k) {
                    let j = choose|j: int| 0 <= j < s0.len() && s0[j] == k;
                    assert(s1[j] == k);
                }
                if s1.contains(k) && k != id@ {
                    let j = choose|j: int| 0 <= j < s1.len() && s1[j] == k;
                    assert(s0[j] == k);
                }
                if k == id@ {
                    assert(s1[i as int] == k);
                }
            }
            assert forall|k: Seq<char>| #[trigger] m@.contains_key(k) implies m@[k]@ == positions(sv, k, (i + 1) as nat) by {
                if k == id@ {
                    if !before.contains_key(k) {
                        lemma_positions_bounds(sv, k, i as nat);
                        assert(!sv.subrange(0, i as int).contains(k));
                        assert(positions(sv, k, i as nat).len() == 0) by {
                            if positions(sv, k, i as nat).len() > 0 {
                                let p = positions(sv, k, i as nat)[0];
                                assert(sv.subrange(0, i as int)[p as int] == k);
                            }
                        }
                        assert(m@[k]@ =~= positions(sv, k, (i + 1) as nat));
                    }
                }
            }
        }
        i = i + 1;
    }
    proof {
        assert(sv.subrange(0, ids@.len() as int) =~= sv);
        let mv = m@.map_values(|v: Vec<usize>| v@);
        assert forall|k: Seq<char>| #[trigger] mv.contains_key(k) ==> mv[k] == positions(sv, k, sv.len()) by {}
    }
    m
}

/// The ids of a fingerprint list.
fn ids_of_fingerprints(fps: &[MonitorFingerprint]) -> (ids: Vec<String>)
    ensures
        string_views(ids@) == fingerprint_ids(fps@),
{
    let mut ids: Vec<String> = Vec::new();
    let mut i: usize = 0;
    while i < fps.len()
        invariant
            i <= fps@.len(),
            string_views(ids@) == fingerprint_ids(fps@).subrange(0, i as int),
        decreases fps@.len() - i,
    {
        let id = fps[i].monitor_id();
        let ghost before = ids@;
        ids.push(id);
        proof {
            assert(ids@ == before.push(id));
            assert(string_views(ids@) =~= string_views(before).push(id@));
            assert(fingerprint_ids(fps@)[i as int] == fps@[i as int].id_spec());
            assert(fingerprint_ids(fps@).subrange(0, i + 1) =~= fingerprint_ids(fps@).subrange(0, i as int).push(
                fps@[i as int].id_spec(),
            ));
        }
        i = i + 1;
    }
    proof {
        assert(fingerprint_ids(fps@).subrange(0, fps@.len() as int) =~= fingerprint_ids(fps@));
    }
    ids
}

/// Group fingerprint indices by their stable `monitor_id`.
///
/// An id appearing more than once is either the same physical panel seen via multiple backends
/// (safe to de-dup) or distinct identical-model panels that collide — told apart by the device
/// path (see [`collisions_needing_labels`]).
pub fn group_by_id(fps: &[MonitorFingerprint]) -> (m: StrMap<Vec<usize>>)
    ensures
        m.wf(),
        groups_ids(m@.map_values(|v: Vec<usize>| v@), fingerprint_ids(fps@)),
{
    let ids = ids_of_fingerprints(fps);
    group_ids(&ids)
}

/// Whether the members of one id group must be labeled.
fn members_need_label(panels: &[EnumeratedPanel], members: &Vec<usize>) -> (b: bool)
    requires
        forall|a: int| 0 <= a < members@.len() ==> #[trigger] members@[a] < panels@.len(),
    ensures
        b == group_needs_label(panels@, members@),
{
    if members.len() <= 1 {
        return false;
    }
    let ghost ms = members@;
    let ghost ps = panels@;
    let mut first: Option<&String> = None;
    let ghost mut first_at: int = -1;
    let mut differ = false;
    let mut i: usize = 0;
    while i < members.len()
        invariant
            i <= ms.len(),
            ms == members@,
            ps == panels@,
            ms.len() > 1,
            forall|a: int| 0 <= a < ms.len() ==> #[trigger] ms[a] < ps.len(),
            match first {
                Some(f) => 0 <= first_at < i && path_of(ps[ms[first_at] as int]) == Some(f@),
                None => forall|a: int| 0 <= a < i ==> !(#[trigger] path_of(ps[ms[a] as int]) is Some),
            },
            differ <==> (first is Some && exists|a: int|
                0 <= a < i && #[trigger] path_of(ps[ms[a] as int]) is Some && path_of(ps[ms[a] as int]) != path_of(
                    ps[ms[first_at] as int],
                )),
        decreases ms.len() - i,
    {
        let idx = members[i];
        let ghost pi = path_of(ps[ms[i as int] as int]);
        let ghost pf = path_of(ps[ms[first_at] as int]);
        let ghost d0 = differ;
        match &panels[idx].device_path {
            Some(p) => {
                match first {
                    Some(f) => {
                        if !str_eq(p.as_str(), f.as_str()) {
                            differ = true;
                            proof {
                                assert(pi is Some && pi != pf);
                            }
                        } else {
                            proof {
                                assert(pi == pf);
                            }
                        }
                    },
                    None => {
                        first = Some(p);
                        proof {
                            first_at = i as int;
                            assert(!d0);
                        }
                    },
                }
            },
            None => {
                proof {
                    assert(!(pi is Some));
                }
            },
        }
        proof {
            let pf2 = path_of(ps[ms[first_at] as int]);
            if differ && !d0 {
                assert(path_of(ps[ms[i as int] as int]) is Some && path_of(ps[ms[i as int] as int]) != pf2);
            }
            if d0 {
                let a = choose|a: int|
                    0 <= a < i && #[trigger] path_of(ps[ms[a] as int]) is Some && path_of(ps[ms[a] as int]) != path_of(
                        ps[ms[first_at] as int],
                    );
                assert(0 <= a < i + 1);
            }
        }
        i = i + 1;
    }
    let r = match first {
        Some(_) => differ,
        None => panels[members[0]].fingerprint.is_ambiguous(),
    };
    proof {
        let has_path = exists|a: int| 0 <= a < ms.len() && #[trigger] path_of(ps[ms[a] as int]) is Some;
        let two = exists|a: int, b: int|
            0 <= a < ms.len() && 0 <= b < ms.len() && #[trigger] path_of(ps[ms[a] as int]) is Some
                && #[trigger] path_of(ps[ms[b] as int]) is Some && path_of(ps[ms[a] as int]) != path_of(
                ps[ms[b] as int],
            );
        if first is Some {
            assert(path_of(ps[ms[first_at] as int]) is Some);
            assert(has_path);
            if differ {
                let a = choose|a: int|
                    0 <= a < ms.len() && #[trigger] path_of(ps[ms[a] as int]) is Some && path_of(ps[ms[a] as int])
                        != path_of(ps[ms[first_at] as int]);
                assert(path_of(ps[ms[a] as int]) is Some && path_of(ps[ms[first_at] as int]) is Some);
                assert(two);
            }
            if two {
                let (a, b) = choose|a: int, b: int|
                    0 <= a < ms.len() && 0 <= b < ms.len() && #[trigger] path_of(ps[ms[a] as int]) is Some
                        && #[trigger] path_of(ps[ms[b] as int]) is Some && path_of(ps[ms[a] as int]) != path_of(
                        ps[ms[b] as int],
                    );
                if path_of(ps[ms[a] as int]) != path_of(ps[ms[first_at] as int]) {
                    assert(differ);
                } else {
                    assert(path_of(ps[ms[b] as int]) != path_of(ps[ms[first_at] as int]));
                    assert(differ);
                }
            }
        } else {
            assert(!has_path);
        }
    }
    r
}

/// Monitor ids that must be labeled by the user because their colliding members cannot be
/// proved to be one physical panel. For each id shared by more than one enumerated panel:
/// more than one distinct device path ⇒ distinct panels ⇒ label; one shared path ⇒ the same
/// panel via several backends ⇒ de-dup; no path evidence ⇒ label exactly when the fingerprint
/// carries no per-unit serial. The result is sorted.
pub fn collisions_needing_labels(panels: &[EnumeratedPanel]) -> (ids: Vec<String>)
    ensures
        strictly_sorted(string_views(ids@)),
        forall|k: Seq<char>| #[trigger] string_views(ids@).contains(k) <==> needs_label(panels@, k),
{
    let mut all: Vec<String> = Vec::new();
    let mut i: usize = 0;
    while i < panels.len()
        invariant
            i <= panels@.len(),
            string_views(all@) == panel_ids(panels@).subrange(0, i as int),
        decreases panels@.len() - i,
    {
        let id = panels[i].fingerprint.monitor_id();
        let ghost before = all@;
        all.push(id);
        proof {
            assert(all@ == before.push(id));
            assert(string_views(all@) =~= string_views(before).push(id@));
            assert(panel_ids(panels@)[i as int] == panels@[i as int].fingerprint.id_spec());
            assert(panel_ids(panels@).subrange(0, i + 1) =~= panel_ids(panels@).subrange(0, i as int).push(
                panels@[i as int].fingerprint.id_spec(),
            ));
        }
        i = i + 1;
    }
    proof {
        assert(panel_ids(panels@).subrange(0, panels@.len() as int) =~= panel_ids(panels@));
    }
    let groups = group_ids(&all);
    let ghost gv = groups@.map_values(|v: Vec<usize>| v@);
    let ghost ids_spec = panel_ids(panels@);
    let n = groups.len();
    let np = panels.len();
    let mut chosen: Vec<String> = Vec::new();
    let mut g: usize = 0;
    while g < n
        invariant
            g <= n,
            groups.wf(),
            gv == groups@.map_values(|v: Vec<usize>| v@),
            ids_spec == panel_ids(panels@),
            ids_spec.len() == panels@.len(),
            np == panels@.len(),
            groups_ids(gv, ids_spec),
            n == groups.keys_view().len(),
            groups.keys_view().no_duplicates(),
            forall|k: Seq<char>| #[trigger] groups@.contains_key(k) <==> groups.keys_view().contains(k),
            forall|j: int| 0 <= j < n ==> #[trigger] groups@[groups.keys_view()[j]] == groups.values_view()[j],
            string_views(chosen@).no_duplicates(),
            forall|k: Seq<char>| #[trigger] string_views(chosen@).contains(k) <==> (exists|j: int|
                0 <= j < g && groups.keys_view()[j] == k) && needs_label(panels@, k),
        decreases n - g,
    {
        let key = groups.key_at(g);
        let members = groups.value_at(g);
        let ghost kv = groups.keys_view();
        proof {
            assert(groups@.contains_key(key@));
            assert(gv.contains_key(key@));
            assert(gv[key@] == members@);
            assert(members@ == positions(ids_spec, key@, ids_spec.len()));
            lemma_positions_bounds(ids_spec, key@, ids_spec.len());
            assert(ids_spec.contains(key@));
            assert forall|a: int| 0 <= a < members@.len() implies #[trigger] members@[a] < panels@.len() by {}
        }
        let need = members_need_label(panels, members);
        let ghost before = string_views(chosen@);
        if need {
            chosen.push(key.clone());
        }
        proof {
            assert(needs_label(panels@, key@) == need);
            assert(!before.contains(key@)) by {
                if before.contains(key@) {
                    let j = choose|j: int| 0 <= j < g && kv[j] == key@;
                    assert(kv[j] == kv[g as int]);
                }
            }
            let after = string_views(chosen@);
            if need {
                assert(after =~= before.push(key@));
            } else {
                assert(after =~= before);
            }
            assert forall|k: Seq<char>| #[trigger] after.contains(k) <==> (exists|j: int|
                0 <= j < g + 1 && kv[j] == k) && needs_label(panels@, k) by {
                if k == key@ {
                    assert(kv[g as int] == k);
                    if need {
                        assert(after[after.len() - 1] == k);
                    }
                } else {
                    if exists|j: int| 0 <= j < g + 1 && kv[j] == k {
                        let j = choose|j: int| 0 <= j < g + 1 && kv[j] == k;
                        assert(j < g);
                    }
                    if after.contains(k) {
                        let c = choose|c: int| 0 <= c < after.len() && after[c] == k;
                        assert(before[c] == k);
                    }
                    if before.contains(k) {
                        let c = choose|c: int| 0 <= c < before.len() && before[c] == k;
                        assert(after[c] == k);
                    }
                }
            }
            if need {
                assert(after.no_duplicates()) by {
                    assert forall|a: int, b: int| 0 <= a < after.len() && 0 <= b < after.len() && a != b implies after[a]
                        != after[b] by {
                        if a < before.len() && b < before.len() {
                        } else if a < before.len() {
                            assert(before.contains(before[a]));
                        } else {
                            assert(before.contains(before[b]));
                        }
                    }
                }
            }
        }
        g = g + 1;
    }
    proof {
        assert forall|k: Seq<char>| #[trigger] string_views(chosen@).contains(k) <==> needs_label(panels@, k) by {
            if needs_label(panels@, k) {
                assert(ids_spec.contains(k));
                assert(gv.contains_key(k));
                assert(groups.keys_view().contains(k));
            }
        }
    }
    sort_distinct_strings(&chosen)
}

} // verus!
