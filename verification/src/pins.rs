//! Trust-on-first-use store of `peer_id -> public key`, and the hex form in which pins persist.
//! A changed key for a known peer is rejected, catching revocation/MITM within the mesh.

use crate::strmap::StrMap;
use crate::text::{chars_of, hex_lower, sort_distinct_strings, string_views, strictly_sorted, to_hex_lower};
use vstd::prelude::*;
use vstd::array::ArrayAdditionalExecFns;

verus! {

/// A known peer presented a different key than the one pinned — possible MITM or key rotation.
#[derive(Debug, Clone, Copy, PartialEq, Eq, Structural)]
pub struct PinMismatch;

/// Value of one hexadecimal digit (either case).
pub open spec fn hex_val(c: char) -> Option<u8> {
    if '0' <= c && c <= '9' {
        Some(((c as int) - 48) as u8)
    } else if 'a' <= c && c <= 'f' {
        Some(((c as int) - 87) as u8)
    } else if 'A' <= c && c <= 'F' {
        Some(((c as int) - 55) as u8)
    } else {
        None
    }
}

/// `u8::from_str_radix` of a two-character string in base 16: an optional `+` sign followed by
/// one digit, or two digits.
pub open spec fn pair_val(c0: char, c1: char) -> Option<u8> {
    if c0 == '+' {
        hex_val(c1)
    } else {
        match (hex_val(c0), hex_val(c1)) {
            (Some(a), Some(b)) => Some((a * 16 + b) as u8),
            _ => None,
        }
    }
}

/// Exactly 64 ASCII characters, every pair a valid base-16 byte.
pub open spec fn hex32_ok(s: Seq<char>) -> bool {
    &&& s.len() == 64
    &&& forall|i: int| 0 <= i < 64 ==> (#[trigger] s[i] as int) < 128
    &&& forall|i: int| 0 <= i < 32 ==> #[trigger] pair_val(s[2 * i], s[2 * i + 1]) is Some
}

/// The 32 bytes of a valid 64-character hex string.
pub open spec fn hex32_bytes(s: Seq<char>) -> Seq<u8> {
    Seq::new(32, |i: int| pair_val(s[2 * i], s[2 * i + 1])->0)
}

fn hex_digit_value(c: char) -> (r: Option<u8>)
    ensures
        r == hex_val(c),
{
    if '0' <= c && c <= '9' {
        Some(((c as u32) - 48) as u8)
    } else if 'a' <= c && c <= 'f' {
        Some(((c as u32) - 87) as u8)
    } else if 'A' <= c && c <= 'F' {
        Some(((c as u32) - 55) as u8)
    } else {
        None
    }
}

fn pair_value(c0: char, c1: char) -> (r: Option<u8>)
    ensures
        r == pair_val(c0, c1),
{
    if c0 == '+' {
        hex_digit_value(c1)
    } else {
        match (hex_digit_value(c0), hex_digit_value(c1)) {
            (Some(a), Some(b)) => Some(a * 16 + b),
            _ => None,
        }
    }
}

/// Parse exactly 64 hex characters into a 32-byte array; `None` on bad length or digits.
pub fn from_hex32(hex: &str) -> (r: Option<[u8; 32]>)
    ensures
        match r {
            Some(a) => hex32_ok(hex@) && a@ == hex32_bytes(hex@),
            None => !hex32_ok(hex@),
        },
{
    let v = chars_of(hex);
    if v.len() != 64 {
        return None;
    }
    let mut out: [u8; 32] = [0u8; 32];
    let mut i: usize = 0;
    while i < 32
        invariant
            i <= 32,
            v@ == hex@,
            v@.len() == 64,
            forall|j: int| 0 <= j < 2 * i ==> (#[trigger] hex@[j] as int) < 128,
            forall|j: int| 0 <= j < i ==> #[trigger] pair_val(hex@[2 * j], hex@[2 * j + 1]) is Some,
            forall|j: int| 0 <= j < i ==> out@[j] == pair_val(hex@[2 * j], hex@[2 * j + 1])->0,
        decreases 32 - i,
    {
        let c0 = v[2 * i];
        let c1 = v[2 * i + 1];
        if !(c0 < '\u{80}' && c1 < '\u{80}') {
            proof {
                assert(!((hex@[2 * i as int] as int) < 128 && (hex@[2 * i + 1] as int) < 128));
            }
            return None;
        }
        match pair_value(c0, c1) {
            Some(b) => {
                out.set(i, b);
            },
            None => {
                return None;
            },
        }
        proof {
            assert forall|j: int| 0 <= j < 2 * (i + 1) implies (#[trigger] hex@[j] as int) < 128 by {
                if j >= 2 * i {
                    assert(j == 2 * i || j == 2 * i + 1);
                }
            }
        }
        i = i + 1;
    }
    proof {
        assert(out@ =~= hex32_bytes(hex@));
    }
    Some(out)
}

/// The canonical peer id (lower-case hex public key) of raw public-key bytes.
pub fn peer_id_of(public_bytes: &[u8; 32]) -> (id: String)
    ensures
        id@ == hex_lower(public_bytes@),
{
    to_hex_lower(public_bytes.as_slice())
}

/// Trust-on-first-use store of `peer_id -> public key`.
#[derive(Debug)]
pub struct PinStore {
    pins: StrMap<[u8; 32]>,
}

impl PinStore {
    pub closed spec fn wf(&self) -> bool {
        self.pins.wf()
    }

    /// Peer id → pinned public-key bytes.
    pub closed spec fn view(&self) -> Map<Seq<char>, Seq<u8>> {
        self.pins@.map_values(|k: [u8; 32]| k@)
    }

    pub fn new() -> (s: Self)
        ensures
            s.wf(),
            s@ == Map::<Seq<char>, Seq<u8>>::empty(),
    {
        let s = PinStore { pins: StrMap::new() };
        assert(s@ =~= Map::<Seq<char>, Seq<u8>>::empty());
        s
    }

    /// Pin `peer_id` to `public_bytes` on first sight; on later sight require it to match.
    pub fn check_or_pin(&mut self, peer_id: &str, public_bytes: [u8; 32]) -> (r: Result<(), PinMismatch>)
        requires
            old(self).wf(),
        ensures
            final(self).wf(),
            r is Err <==> (old(self)@.contains_key(peer_id@) && old(self)@[peer_id@] != public_bytes@),
            r is Ok ==> final(self)@ == old(self)@.insert(peer_id@, public_bytes@),
            r is Err ==> final(self)@ == old(self)@,
    {
        match self.pins.get(peer_id) {
            Some(existing) => {
                let mut i: usize = 0;
                while i < 32
                    invariant
                        i <= 32,
                        self.wf(),
                        self@ == old(self)@,
                        old(self)@.contains_key(peer_id@),
                        existing@ == old(self)@[peer_id@],
                        forall|j: int| 0 <= j < i ==> existing@[j] == public_bytes@[j],
                    decreases 32 - i,
                {
                    if existing[i] != public_bytes[i] {
                        proof {
                            assert(existing@[i as int] != public_bytes@[i as int]);
                        }
                        return Err(PinMismatch);
                    }
                    i = i + 1;
                }
                proof {
                    assert(existing@ =~= public_bytes@);
                    assert(old(self)@.insert(peer_id@, public_bytes@) =~= old(self)@);
                }
                Ok(())
            },
            None => {
                self.pins.insert(peer_id.to_owned(), public_bytes);
                proof {
                    assert(self@ =~= old(self)@.insert(peer_id@, public_bytes@));
                }
                Ok(())
            },
        }
    }

    pub fn is_pinned(&self, peer_id: &str) -> (b: bool)
        requires
            self.wf(),
        ensures
            b == self@.contains_key(peer_id@),
    {
        self.pins.contains_key(peer_id)
    }

    /// Pre-pin a known peer (e.g. loaded from disk).
    pub fn pin(&mut self, peer_id: &str, public_bytes: [u8; 32])
        requires
            old(self).wf(),
        ensures
            final(self).wf(),
            final(self)@ == old(self)@.insert(peer_id@, public_bytes@),
    {
        self.pins.insert(peer_id.to_owned(), public_bytes);
        proof {
            assert(self@ =~= old(self)@.insert(peer_id@, public_bytes@));
        }
    }

    /// Remove a pin (revocation). The caller should also rotate the mesh secret.
    pub fn revoke(&mut self, peer_id: &str) -> (removed: bool)
        requires
            old(self).wf(),
        ensures
            final(self).wf(),
            removed == old(self)@.contains_key(peer_id@),
            final(self)@ == old(self)@.remove(peer_id@),
    {
        let r = self.pins.remove(peer_id);
        proof {
            assert(self@ =~= old(self)@.remove(peer_id@));
        }
        r.is_some()
    }

    /// A store holding the entries of a persisted `peer_id -> hex public key` map, in order;
    /// entries whose key is not 64 valid hex characters are skipped.
    pub fn from_entries(entries: &[(String, String)]) -> (s: Self)
        ensures
            s.wf(),
            forall|k: Seq<char>| #[trigger] s@.contains_key(k) ==> exists|i: int|
                0 <= i < entries@.len() && entries@[i].0@ == k && hex32_ok(entries@[i].1@),
            forall|i: int| #![trigger entries@[i]]
                0 <= i < entries@.len() && hex32_ok(entries@[i].1@) && (forall|j: int|
                    i < j < entries@.len() ==> entries@[j].0@ != entries@[i].0@) ==> s@.contains_key(entries@[i].0@)
                    && s@[entries@[i].0@] == hex32_bytes(entries@[i].1@),
    {
        let mut s = PinStore::new();
        let mut i: usize = 0;
        while i < entries.len()
            invariant
                i <= entries@.len(),
                s.wf(),
                forall|k: Seq<char>| #[trigger] s@.contains_key(k) ==> exists|j: int|
                    0 <= j < i && entries@[j].0@ == k && hex32_ok(entries@[j].1@),
                forall|j: int| #![trigger entries@[j]]
                    0 <= j < i && hex32_ok(entries@[j].1@) && (forall|l: int|
                        j < l < i ==> entries@[l].0@ != entries@[j].0@) ==> s@.contains_key(entries@[j].0@)
                        && s@[entries@[j].0@] == hex32_bytes(entries@[j].1@),
            decreases entries@.len() - i,
        {
            let ghost before = s@;
            match from_hex32(entries[i].1.as_str()) {
                Some(key) => {
                    s.pin(entries[i].0.as_str(), key);
                },
                None => {},
            }
            proof {
                assert forall|k: Seq<char>| #[trigger] s@.contains_key(k) implies exists|j: int|
                    0 <= j < i + 1 && entries@[j].0@ == k && hex32_ok(entries@[j].1@) by {
                    if before.contains_key(k) {
                        let j = choose|j: int| 0 <= j < i && entries@[j].0@ == k && hex32_ok(entries@[j].1@);
                        assert(0 <= j < i + 1);
                    } else {
                        assert(entries@[i as int].0@ == k);
                    }
                }
            }
            i = i + 1;
        }
        s
    }

    /// The pins as `(peer_id, hex public key)` pairs sorted by peer id — the persisted form.
    pub fn to_entries(&self) -> (out: Vec<(String, String)>)
        requires
            self.wf(),
        ensures
            out@.len() == self@.len(),
            strictly_sorted(out@.map_values(|e: (String, String)| e.0@)),
            forall|i: int| #![trigger out@[i]]
                0 <= i < out@.len() ==> self@.contains_key(out@[i].0@) && out@[i].1@ == hex_lower(self@[out@[i].0@]),
            forall|k: Seq<char>| #[trigger] self@.contains_key(k) ==> exists|i: int| 0 <= i < out@.len() && out@[i].0@ == k,
    {
        let n = self.pins.len();
        proof {
            assert(self@.dom() =~= self.pins@.dom());
        }
        let keys = self.pins.keys();
        let sorted = sort_distinct_strings(&keys);
        let mut out: Vec<(String, String)> = Vec::new();
        let mut i: usize = 0;
        while i < sorted.len()
            invariant
                self.wf(),
                i <= sorted@.len(),
                sorted@.len() == n,
                n == self@.len(),
                out@.len() == i,
                strictly_sorted(string_views(sorted@)),
                forall|s: Seq<char>| #[trigger] string_views(sorted@).contains(s) <==> self.pins@.contains_key(s),
                forall|j: int| #![trigger out@[j]]
                    0 <= j < i ==> out@[j].0@ == sorted@[j]@ && self@.contains_key(out@[j].0@) && out@[j].1@ == hex_lower(
                        self@[out@[j].0@],
                    ),
            decreases sorted@.len() - i,
        {
            let k = &sorted[i];
            proof {
                assert(string_views(sorted@)[i as int] == k@);
                assert(string_views(sorted@).contains(k@));
            }
            let key = match self.pins.get(k.as_str()) {
                Some(b) => b,
                None => {
                    proof {
                        assert(false);
                    }
                    return out;
                },
            };
            let hex = to_hex_lower(key.as_slice());
            let ghost prev = out@;
            out.push((k.clone(), hex));
            proof {
                assert forall|j: int| #![trigger out@[j]] 0 <= j < i + 1 implies out@[j].0@ == sorted@[j]@ && self@.contains_key(
                    out@[j].0@,
                ) && out@[j].1@ == hex_lower(self@[out@[j].0@]) by {
                    if j < i {
                        assert(out@[j] == prev[j]);
                    }
                }
            }
            i = i + 1;
        }
        proof {
            let names = out@.map_values(|e: (String, String)| e.0@);
            assert(names =~= string_views(sorted@));
            assert forall|k: Seq<char>| #[trigger] self@.contains_key(k) implies exists|i: int|
                0 <= i < out@.len() && out@[i].0@ == k by {
                assert(string_views(sorted@).contains(k));
                let i = choose|i: int| 0 <= i < string_views(sorted@).len() && string_views(sorted@)[i] == k;
                assert(out@[i].0@ == k);
            }
        }
        out
    }
}

} // verus!
