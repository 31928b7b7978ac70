//! Identity and addressing helpers for enumerated DDC/CI displays: the stable monitor id, the
//! model-wide quirk token, the backend-local address, and the classification of write errors.

use crate::fingerprint::{ambiguous, MonitorFingerprint};
use crate::ownership::opt_view;
use crate::text::{chars_of, contains_sub, dec_digits, is_blank, push_dec, str_contains, str_is_blank, str_trim, string_push, trim};
use crate::types::DdcWriteResult;
use vstd::prelude::*;
use vstd::string::{StrSliceExecFns, StringExecFns};

verus! {

/// Identity + backend for a discovered monitor.
#[derive(Debug, Clone)]
pub struct MonitorInfo {
    /// Unique local backend address for reads and writes; the id the one-PC app persists.
    pub id: String,
    pub manufacturer: Option<String>,
    pub model: Option<String>,
    pub serial: Option<u32>,
    pub backend: String,
    /// Composite EDID fingerprint, when enough identity is available.
    pub fingerprint: Option<MonitorFingerprint>,
}

pub open spec fn is_ascii_alnum(c: char) -> bool {
    ('0' <= c && c <= '9') || ('A' <= c && c <= 'Z') || ('a' <= c && c <= 'z')
}

pub open spec fn ascii_upper(c: char) -> char {
    if 'a' <= c && c <= 'z' {
        ((c as int) - 32) as char
    } else {
        c
    }
}

pub open spec fn ascii_lower(c: char) -> char {
    if 'A' <= c && c <= 'Z' {
        ((c as int) + 32) as char
    } else {
        c
    }
}

/// One step of token normalization: alphanumerics are kept upper-cased; a run of anything else
/// between two kept characters becomes one `-`.
pub open spec fn norm_step(state: (Seq<char>, bool), c: char) -> (Seq<char>, bool) {
    let (out, pending) = state;
    if is_ascii_alnum(c) {
        let sep = if pending && out.len() > 0 { out.push('-') } else { out };
        (sep.push(ascii_upper(c)), false)
    } else if out.len() > 0 {
        (out, true)
    } else {
        (out, pending)
    }
}

/// Token normalization over a whole string.
pub open spec fn norm_fold(s: Seq<char>) -> (Seq<char>, bool)
    decreases s.len(),
{
    if s.len() == 0 {
        (seq![], false)
    } else {
        norm_step(norm_fold(s.drop_last()), s.last())
    }
}

/// A normalized token part, or `None` when nothing alphanumeric remains.
pub open spec fn normalized(s: Seq<char>) -> Option<Seq<char>> {
    let out = norm_fold(trim(s)).0;
    if out.len() > 0 { Some(out) } else { None }
}

fn char_is_alnum(c: char) -> (b: bool)
    ensures
        b == is_ascii_alnum(c),
{
    ('0' <= c && c <= '9') || ('A' <= c && c <= 'Z') || ('a' <= c && c <= 'z')
}

fn char_upper(c: char) -> (u: char)
    ensures
        u == ascii_upper(c),
{
    if 'a' <= c && c <= 'z' {
        ((c as u8) - 32) as char
    } else {
        c
    }
}

fn char_lower(c: char) -> (u: char)
    ensures
        u == ascii_lower(c),
{
    if 'A' <= c && c <= 'Z' {
        ((c as u8) + 32) as char
    } else {
        c
    }
}

/// Normalize one part of the model token: upper-cased ASCII alphanumerics with `-` between runs.
pub fn normalize_token_part(value: &str) -> (r: Option<String>)
    ensures
        match r {
            Some(s) => normalized(value@) == Some(s@),
            None => normalized(value@) is None,
        },
{
    let trimmed = str_trim(value);
    let v = chars_of(trimmed.as_str());
    let mut out = String::new();
    let mut nonempty = false;
    let mut pending = false;
    let mut i: usize = 0;
    proof {
        assert(v@.take(0) =~= Seq::<char>::empty());
    }
    while i < v.len()
        invariant
            v@ == trim(value@),
            i <= v@.len(),
            norm_fold(v@.take(i as int)) == (out@, pending),
            nonempty == (out@.len() > 0),
        decreases v@.len() - i,
    {
        let c = v[i];
        proof {
            assert(v@.take(i + 1).drop_last() =~= v@.take(i as int));
            assert(v@.take(i + 1).last() == c);
        }
        if char_is_alnum(c) {
            if pending && nonempty {
                string_push(&mut out, '-');
            }
            string_push(&mut out, char_upper(c));
            nonempty = true;
            pending = false;
        } else if nonempty {
            pending = true;
        }
        i = i + 1;
    }
    proof {
        assert(v@.take(v@.len() as int) =~= v@);
    }
    if nonempty {
        Some(out)
    } else {
        None
    }
}

/// The fingerprint carries a real per-unit serial: a nonzero numeric serial, or an ASCII serial
/// that is not blank.
pub open spec fn has_real_serial(fp: MonitorFingerprint) -> bool {
    fp.numeric_serial != 0 || (fp.ascii_serial matches Some(s) && !is_blank(s@))
}

/// The model-wide token of a monitor: normalized manufacturer (falling back to the fingerprint's
/// PNP id) and model, joined by `-`.
pub open spec fn model_token_spec(info: MonitorInfo) -> Option<Seq<char>> {
    let mfr_src = match info.manufacturer {
        Some(m) => Some(m@),
        None => match info.fingerprint {
            Some(fp) => Some(fp.pnp_manufacturer@),
            None => None,
        },
    };
    let mfr = match mfr_src {
        Some(m) => normalized(m),
        None => None,
    };
    let model = match info.model {
        Some(m) => normalized(m@),
        None => None,
    };
    match (mfr, model) {
        (Some(a), Some(b)) => Some(a + seq!['-'] + b),
        _ => None,
    }
}

impl MonitorInfo {
    /// Stable monitor id when the fingerprint includes a real serial discriminator. Manufacturer
    /// and product alone are shared by every unit of a model, so two serial-less displays would
    /// collapse to one id; callers fall back to [`MonitorInfo::id`] then.
    pub fn monitor_id(&self) -> (r: Option<String>)
        ensures
            match self.fingerprint {
                Some(fp) => if has_real_serial(fp) {
                    r matches Some(s) && s@ == fp.id_spec()
                } else {
                    r is None
                },
                None => r is None,
            },
    {
        match &self.fingerprint {
            Some(fp) => {
                let has_serial = fp.numeric_serial != 0 || match &fp.ascii_serial {
                    Some(s) => !str_is_blank(s.as_str()),
                    None => false,
                };
                if has_serial {
                    Some(fp.monitor_id())
                } else {
                    None
                }
            },
            None => None,
        }
    }

    /// Normalized manufacturer/model key for applying model-wide quirks. It may be shared by
    /// many physical units and must never be used to select a DDC handle.
    pub fn model_token(&self) -> (r: Option<String>)
        ensures
            match r {
                Some(s) => model_token_spec(*self) == Some(s@),
                None => model_token_spec(*self) is None,
            },
    {
        let mfr_src: Option<&str> = match &self.manufacturer {
            Some(m) => Some(m.as_str()),
            None => match &self.fingerprint {
                Some(fp) => Some(fp.pnp_manufacturer.as_str()),
                None => None,
            },
        };
        let mfr = match mfr_src {
            Some(m) => normalize_token_part(m),
            None => None,
        };
        let mfr = match mfr {
            Some(m) => m,
            None => {
                return None;
            },
        };
        let model = match &self.model {
            Some(m) => normalize_token_part(m.as_str()),
            None => None,
        };
        match model {
            Some(model) => {
                let mut s = mfr;
                string_push(&mut s, '-');
                s.append(model.as_str());
                Some(s)
            },
            None => None,
        }
    }
}

/// The identity fields a display backend reports, as plain values.
pub struct DisplayIdentity {
    /// The raw EDID block, when the backend exposes it.
    pub edid: Option<Vec<u8>>,
    pub manufacturer_id: Option<String>,
    pub model_id: Option<u16>,
    pub serial: Option<u32>,
    pub serial_number: Option<String>,
}

/// Build a fingerprint from what a backend reports: the raw EDID block when it parses; else the
/// parsed identity parts, when there are any; else none.
pub fn fingerprint_from_info(info: &DisplayIdentity) -> (r: Option<MonitorFingerprint>)
    ensures
        match info.edid {
            Some(e) if MonitorFingerprint::edid_parses(e@) => r matches Some(fp) && MonitorFingerprint::from_edid_result(
                e@,
                fp,
            ),
            _ => if info.manufacturer_id is None && info.serial is None && info.serial_number is None
                && info.model_id is None {
                r is None
            } else {
                r matches Some(fp) && fp.pnp_manufacturer@ == (match info.manufacturer_id {
                    Some(m) => m@,
                    None => Seq::<char>::empty(),
                }) && fp.product_code == (match info.model_id {
                    Some(p) => p,
                    None => 0u16,
                }) && fp.numeric_serial == (match info.serial {
                    Some(n) => n,
                    None => 0u32,
                }) && opt_view(fp.ascii_serial) == opt_view(info.serial_number) && fp.week == 0 && fp.year == 0
                    && fp.raw_sha256 is None
            },
        },
{
    match &info.edid {
        Some(e) => {
            match MonitorFingerprint::from_edid(e.as_slice()) {
                Ok(fp) => {
                    return Some(fp);
                },
                Err(_) => {},
            }
        },
        None => {},
    }
    if info.manufacturer_id.is_none() && info.serial.is_none() && info.serial_number.is_none() && info.model_id.is_none() {
        return None;
    }
    let mfr = match &info.manufacturer_id {
        Some(m) => m.clone(),
        None => String::new(),
    };
    let serial_number = match &info.serial_number {
        Some(s) => Some(s.clone()),
        None => None,
    };
    let product = match info.model_id {
        Some(p) => p,
        None => 0,
    };
    let serial = match info.serial {
        Some(n) => n,
        None => 0,
    };
    Some(MonitorFingerprint::from_parts(mfr, product, serial, serial_number))
}

/// The backend-local address of a display: `"{backend}:{id}"` with the trimmed backend id, or
/// `"{backend}:index:{index}"` when the backend gives no id.
pub open spec fn backend_local_id_spec(backend: Seq<char>, backend_id: Seq<char>, index: usize) -> Seq<char> {
    if trim(backend_id).len() == 0 {
        backend + ":index:"@ + dec_digits(index as nat)
    } else {
        backend + seq![':'] + trim(backend_id)
    }
}

/// The local address of a display: the backend's unique id when it has one, else its index.
pub fn backend_local_id(backend: &str, backend_id: &str, index: usize) -> (r: String)
    ensures
        r@ == backend_local_id_spec(backend@, backend_id@, index),
{
    let trimmed = str_trim(backend_id);
    let mut s = backend.to_owned();
    if chars_of(trimmed.as_str()).len() == 0 {
        s.append(":index:");
        push_dec(&mut s, index as u64);
    } else {
        string_push(&mut s, ':');
        s.append(trimmed.as_str());
    }
    s
}

/// ASCII lower-casing of a text.
pub open spec fn lower_all(s: Seq<char>) -> Seq<char> {
    s.map_values(|c: char| ascii_lower(c))
}

fn to_ascii_lower(s: &str) -> (r: String)
    ensures
        r@ == lower_all(s@),
{
    let v = chars_of(s);
    let mut out = String::new();
    let mut i: usize = 0;
    while i < v.len()
        invariant
            v@ == s@,
            i <= v@.len(),
            out@ == lower_all(s@).take(i as int),
        decreases v@.len() - i,
    {
        string_push(&mut out, char_lower(v[i]));
        proof {
            assert(out@ =~= lower_all(s@).take(i + 1));
        }
        i = i + 1;
    }
    proof {
        assert(lower_all(s@).take(v@.len() as int) =~= lower_all(s@));
    }
    out
}

/// Classify a failed write by its error text: an error whose text, ASCII-lower-cased, says
/// "unsupported" or "not supported" is permanent (`Unsupported`, no retry); anything else is a
/// retryable `Failed`.
pub fn classify_write_message(message: &str) -> (r: DdcWriteResult)
    ensures
        r == (if contains_sub(lower_all(message@), "unsupported"@) || contains_sub(lower_all(message@), "not supported"@) {
            DdcWriteResult::Unsupported
        } else {
            DdcWriteResult::Failed
        }),
{
    let lower = to_ascii_lower(message);
    if str_contains(lower.as_str(), "unsupported") || str_contains(lower.as_str(), "not supported") {
        DdcWriteResult::Unsupported
    } else {
        DdcWriteResult::Failed
    }
}


/// The name shown for a detected monitor: the trimmed manufacturer (none: empty) and the
/// trimmed model (none: "Monitor") joined by a space and trimmed, or "Monitor" when that is empty.
pub open spec fn display_name_spec(manufacturer: Option<Seq<char>>, model: Option<Seq<char>>) -> Seq<char> {
    let m = match manufacturer {
        Some(s) => trim(s),
        None => seq![],
    };
    let d = match model {
        Some(s) => trim(s),
        None => "Monitor"@,
    };
    let joined = trim(m + seq![' '] + d);
    if joined.len() == 0 { "Monitor"@ } else { joined }
}

impl MonitorInfo {
    /// The name shown for this monitor in lists.
    pub fn display_name(&self) -> (name: String)
        ensures
            name@ == display_name_spec(opt_view(self.manufacturer), opt_view(self.model)),
    {
        let m = match &self.manufacturer {
            Some(s) => str_trim(s.as_str()),
            None => String::new(),
        };
        let d = match &self.model {
            Some(s) => str_trim(s.as_str()),
            None => "Monitor".to_owned(),
        };
        let mut joined = m;
        string_push(&mut joined, ' ');
        joined.append(d.as_str());
        let name = str_trim(joined.as_str());
        assert(m@ == match opt_view(self.manufacturer) { Some(s) => trim(s), None => Seq::<char>::empty() });
        assert(d@ == match opt_view(self.model) { Some(s) => trim(s), None => "Monitor"@ });
        assert(joined@ == m@ + seq![' '] + d@);
        if name.as_str().unicode_len() == 0 {
            "Monitor".to_owned()
        } else {
            name
        }
    }

    /// The detail line shown under the name: backend and local id, then the stable fingerprint id
    /// when there is one.
    pub fn display_detail(&self) -> (detail: String)
        ensures
            detail@ == self.backend@ + " \u{b7} "@ + self.id@ + match self.fingerprint {
                Some(fp) => if has_real_serial(fp) { " \u{b7} fingerprint "@ + fp.id_spec() } else { seq![] },
                None => seq![],
            },
    {
        let mut d = self.backend.clone();
        d.append(" \u{b7} ");
        d.append(self.id.as_str());
        match self.monitor_id() {
            Some(id) => {
                d.append(" \u{b7} fingerprint ");
                d.append(id.as_str());
            },
            None => {},
        }
        d
    }
}

} // verus!
