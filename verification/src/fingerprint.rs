//! Composite, cross-PC monitor identity parsed from EDID.
//!
//! No single field is unique enough on its own — serials are frequently blank/zero or
//! model-constant — so the stable [`MonitorFingerprint::monitor_id`] hashes the identity tuple
//! (manufacturer, product, serials). Manufacture week/year and the raw-EDID hash are advisory
//! only and deliberately excluded from the id.

use sha2::{Digest, Sha256};
use vstd::prelude::*;
use vstd::string::{StrSliceExecFns, StringExecFns};
use vstd::utf8::encode_utf8;
use crate::ownership::opt_view;
use crate::text::{
    dec_digits, hex_lower, is_lower_hex_digit, lemma_hex_lower_digits, lemma_hex_lower_len, push_dec, string_push, string_trim_end,
    to_hex_lower, trim_end,
};

verus! {

/// SHA-256 of a byte string (32 bytes), as computed by the `sha2` crate.
pub uninterp spec fn sha256_of(data: Seq<u8>) -> Seq<u8>;

/// `sha2::Sha256::digest`: the result is the SHA-256 digest of `data`, named by `sha256_of`;
/// the digest is 32 bytes long (`Sha256`'s output size). Nothing else about the hash is stated.
#[verifier::external_body]
pub(crate) fn sha256_digest(data: &[u8]) -> (d: Vec<u8>)
    ensures
        d@ == sha256_of(data@),
        d@.len() == 32,
{
    Sha256::digest(data).to_vec()
}

/// Lower-case hex SHA-256 of `data`.
fn sha256_hex(data: &[u8]) -> (r: String)
    ensures
        r@ == hex_lower(sha256_of(data@)),
        r@.len() == 64,
{
    let d = sha256_digest(data);
    proof {
        lemma_hex_lower_len(sha256_of(data@));
    }
    to_hex_lower(d.as_slice())
}

/// Composite, cross-PC monitor identity derived from EDID.
#[derive(Debug, PartialEq, Eq)]
pub struct MonitorFingerprint {
    /// 3-letter PNP manufacturer id, e.g. "AOC".
    pub pnp_manufacturer: String,
    pub product_code: u16,
    /// 32-bit numeric serial (0 if absent).
    pub numeric_serial: u32,
    /// ASCII serial descriptor (0xFF), if present.
    pub ascii_serial: Option<String>,
    pub week: u8,
    /// Full manufacture year (e.g. 2021), or 0 if unknown.
    pub year: u16,
    /// Hex SHA-256 of the full raw EDID — advisory only (drift detection), NOT part of the id.
    pub raw_sha256: Option<String>,
}

impl Clone for MonitorFingerprint {
    fn clone(&self) -> (r: Self)
        ensures
            r == *self,
    {
        MonitorFingerprint {
            pnp_manufacturer: self.pnp_manufacturer.clone(),
            product_code: self.product_code,
            numeric_serial: self.numeric_serial,
            ascii_serial: match &self.ascii_serial {
                Some(s) => Some(s.clone()),
                None => None,
            },
            week: self.week,
            year: self.year,
            raw_sha256: match &self.raw_sha256 {
                Some(s) => Some(s.clone()),
                None => None,
            },
        }
    }
}

#[derive(Debug, Clone, Copy, PartialEq, Eq, Structural)]
pub enum EdidError {
    TooShort,
    BadHeader,
}

/// The fixed 8-byte EDID header.
pub open spec fn edid_header() -> Seq<u8> {
    seq![0x00u8, 0xFF, 0xFF, 0xFF, 0xFF, 0xFF, 0xFF, 0x00]
}

/// One letter of the packed PNP manufacturer id: 1..=26 is `A..=Z`, anything else `?`.
pub open spec fn pnp_letter(n: int) -> char {
    if 1 <= n <= 26 {
        ((64 + n) as u8) as char
    } else {
        '?'
    }
}

/// The 3-letter PNP id packed big-endian into bytes 8..10 (three 5-bit fields).
pub open spec fn pnp_spec(b0: u8, b1: u8) -> Seq<char> {
    let v = b0 * 256 + b1;
    seq![pnp_letter((v / 1024) % 32), pnp_letter((v / 32) % 32), pnp_letter(v % 32)]
}

/// Bytes kept from descriptor text: printable ASCII and space.
pub open spec fn is_text_byte(b: u8) -> bool {
    0x20 <= b <= 0x7E
}

/// Descriptor text up to the 0x0A terminator, keeping only printable ASCII and spaces.
pub open spec fn text_chars(bytes: Seq<u8>) -> Seq<char>
    decreases bytes.len(),
{
    if bytes.len() == 0 || bytes[0] == 0x0A {
        seq![]
    } else if is_text_byte(bytes[0]) {
        seq![bytes[0] as char] + text_chars(bytes.drop_first())
    } else {
        text_chars(bytes.drop_first())
    }
}

/// EDID descriptor text: space-padded, 0x0A-terminated, non-printable bytes dropped, trailing
/// whitespace trimmed.
pub open spec fn descriptor_text(bytes: Seq<u8>) -> Seq<char> {
    trim_end(text_chars(bytes))
}

/// The `k`-th 18-byte display descriptor of the base block.
pub open spec fn descriptor(e: Seq<u8>, k: int) -> Seq<u8> {
    e.subrange(54 + 18 * k, 54 + 18 * k + 18)
}

/// A serial-number (0xFF) display descriptor.
pub open spec fn is_serial_descriptor(d: Seq<u8>) -> bool {
    d[0] == 0 && d[1] == 0 && d[2] == 0 && d[4] == 0 && d[3] == 0xFF
}

/// The ASCII serial after scanning the first `k` descriptors: a later non-empty serial text
/// replaces an earlier one.
pub open spec fn scan_serial(e: Seq<u8>, k: nat) -> Option<Seq<char>>
    decreases k,
{
    if k == 0 {
        None
    } else {
        let d = descriptor(e, k - 1);
        let text = descriptor_text(d.subrange(5, 18));
        if is_serial_descriptor(d) && text.len() > 0 {
            Some(text)
        } else {
            scan_serial(e, (k - 1) as nat)
        }
    }
}

pub open spec fn le16(a: u8, b: u8) -> u16 {
    (a + 256 * b) as u16
}

pub open spec fn le32(a: u8, b: u8, c: u8, d: u8) -> u32 {
    (a + 256 * b + 65536 * c + 16777216 * d) as u32
}

/// Byte 16 is the manufacture week, except 0xFF which flags a model year (normalized to 0).
pub open spec fn week_of(b: u8) -> u8 {
    if b == 0xFF { 0 } else { b }
}

/// Byte 17 is years since 1990; 0 means unknown.
pub open spec fn year_of(b: u8) -> u16 {
    if b == 0 { 0 } else { (1990 + b) as u16 }
}

/// The string hashed into the monitor id: `"{manufacturer}|{product}|{serial}|{ascii}"`.
pub open spec fn composite(mfr: Seq<char>, product: u16, serial: u32, ascii: Option<Seq<char>>) -> Seq<char> {
    mfr + seq!['|'] + dec_digits(product as nat) + seq!['|'] + dec_digits(serial as nat) + seq!['|']
        + match ascii {
        Some(a) => a,
        None => seq![],
    }
}

/// The stable monitor id: the first 12 lower-case hex digits of SHA-256 over the UTF-8 bytes of
/// the composite identity string.
pub open spec fn monitor_id_of(mfr: Seq<char>, product: u16, serial: u32, ascii: Option<Seq<char>>) -> Seq<char> {
    hex_lower(sha256_of(encode_utf8(composite(mfr, product, serial, ascii)))).subrange(0, 12)
}

/// No per-unit serial: numeric 0 and no (or empty) ASCII serial.
pub open spec fn ambiguous(serial: u32, ascii: Option<Seq<char>>) -> bool {
    serial == 0 && match ascii {
        Some(a) => a.len() == 0,
        None => true,
    }
}

/// The monitor id depends on the identity tuple alone: two fingerprints that agree on
/// manufacturer, product code, numeric serial and ASCII serial get the same id, whatever their
/// week, year or raw-EDID hash.
pub proof fn lemma_monitor_id_ignores_advisory_fields(a: MonitorFingerprint, b: MonitorFingerprint)
    requires
        a.pnp_manufacturer@ == b.pnp_manufacturer@,
        a.product_code == b.product_code,
        a.numeric_serial == b.numeric_serial,
        opt_view(a.ascii_serial) == opt_view(b.ascii_serial),
    ensures
        a.id_spec() == b.id_spec(),
{
}

fn decode_pnp(b0: u8, b1: u8) -> (s: String)
    ensures
        s@ == pnp_spec(b0, b1),
{
    let v: u32 = (b0 as u32) * 256 + (b1 as u32);
    let mut s = String::new();
    let parts: [u32; 3] = [(v / 1024) % 32, (v / 32) % 32, v % 32];
    let mut i: usize = 0;
    while i < 3
        invariant
            i <= 3,
            v == b0 * 256 + b1,
            parts@ == seq![(v / 1024) % 32, (v / 32) % 32, v % 32],
            s@ == pnp_spec(b0, b1).subrange(0, i as int),
        decreases 3 - i,
    {
        let n = parts[i];
        let c = if 1 <= n && n <= 26 {
            ((64 + n) as u8) as char
        } else {
            '?'
        };
        string_push(&mut s, c);
        proof {
            assert(pnp_spec(b0, b1).subrange(0, i + 1) =~= pnp_spec(b0, b1).subrange(0, i as int).push(
                pnp_spec(b0, b1)[i as int],
            ));
        }
        i = i + 1;
    }
    proof {
        assert(pnp_spec(b0, b1).subrange(0, 3) =~= pnp_spec(b0, b1));
    }
    s
}

/// Decodes descriptor text from `e[lo..hi]`.
fn decode_descriptor_text(e: &[u8], lo: usize, hi: usize) -> (s: String)
    requires
        lo <= hi <= e@.len(),
    ensures
        s@ == descriptor_text(e@.subrange(lo as int, hi as int)),
{
    let ghost bytes = e@.subrange(lo as int, hi as int);
    let mut acc: Vec<char> = Vec::new();
    let mut i: usize = lo;
    proof {
        assert(bytes.skip(0) =~= bytes);
    }
    while i < hi
        invariant_except_break
            lo <= i <= hi <= e@.len(),
            bytes == e@.subrange(lo as int, hi as int),
            text_chars(bytes) == acc@ + text_chars(bytes.skip(i - lo)),
        ensures
            text_chars(bytes) == acc@,
        decreases hi - i,
    {
        let b = e[i];
        proof {
            assert(bytes.skip(i - lo)[0] == b);
            assert(bytes.skip(i - lo).drop_first() =~= bytes.skip(i + 1 - lo));
        }
        if b == 0x0A {
            proof {
                assert(acc@ + Seq::<char>::empty() =~= acc@);
            }
            break;
        }
        if 0x20 <= b && b <= 0x7E {
            let ghost a0 = acc@;
            acc.push(b as char);
            proof {
                assert(a0 + (seq![b as char] + text_chars(bytes.skip(i + 1 - lo))) =~= acc@ + text_chars(
                    bytes.skip(i + 1 - lo),
                ));
            }
        }
        i = i + 1;
        proof {
            if i == hi {
                assert(bytes.skip(i - lo) =~= Seq::<u8>::empty());
                assert(acc@ + Seq::<char>::empty() =~= acc@);
            }
        }
    }
    proof {
        if lo == hi {
            assert(bytes =~= Seq::<u8>::empty());
        }
    }
    string_trim_end(&acc)
}

impl MonitorFingerprint {
    /// The stable id this fingerprint hashes to.
    pub open spec fn id_spec(&self) -> Seq<char> {
        monitor_id_of(self.pnp_manufacturer@, self.product_code, self.numeric_serial, opt_view(self.ascii_serial))
    }

    /// The EDID bytes `e` parse (long enough, correct header).
    pub open spec fn edid_parses(e: Seq<u8>) -> bool {
        e.len() >= 128 && e.subrange(0, 8) == edid_header()
    }

    /// `fp` is what parsing the EDID bytes `e` yields.
    pub open spec fn from_edid_result(e: Seq<u8>, fp: MonitorFingerprint) -> bool {
        &&& fp.pnp_manufacturer@ == pnp_spec(e[8], e[9])
        &&& fp.product_code == le16(e[10], e[11])
        &&& fp.numeric_serial == le32(e[12], e[13], e[14], e[15])
        &&& fp.week == week_of(e[16])
        &&& fp.year == year_of(e[17])
        &&& opt_view(fp.ascii_serial) == scan_serial(e, 4)
        &&& opt_view(fp.raw_sha256) == Some(hex_lower(sha256_of(e)))
    }

    /// Parse the EDID base block (must be at least 128 bytes).
    pub fn from_edid(edid: &[u8]) -> (r: Result<Self, EdidError>)
        ensures
            edid@.len() < 128 ==> r == Err::<Self, EdidError>(EdidError::TooShort),
            edid@.len() >= 128 && edid@.subrange(0, 8) != edid_header() ==> r == Err::<Self, EdidError>(
                EdidError::BadHeader,
            ),
            MonitorFingerprint::edid_parses(edid@) ==> (r matches Ok(fp) && MonitorFingerprint::from_edid_result(edid@, fp)),
    {
        if edid.len() < 128 {
            return Err(EdidError::TooShort);
        }
        let header: [u8; 8] = [0x00, 0xFF, 0xFF, 0xFF, 0xFF, 0xFF, 0xFF, 0x00];
        let mut h: usize = 0;
        while h < 8
            invariant
                h <= 8,
                edid@.len() >= 128,
                header@ == edid_header(),
                forall|j: int| 0 <= j < h ==> edid@[j] == edid_header()[j],
            decreases 8 - h,
        {
            if edid[h] != header[h] {
                proof {
                    assert(edid@.subrange(0, 8)[h as int] != edid_header()[h as int]);
                }
                return Err(EdidError::BadHeader);
            }
            h = h + 1;
        }
        proof {
            assert(edid@.subrange(0, 8) =~= edid_header());
        }
        let pnp_manufacturer = decode_pnp(edid[8], edid[9]);
        let product_code: u16 = (edid[10] as u16) + (edid[11] as u16) * 256;
        let numeric_serial: u32 = (edid[12] as u32) + (edid[13] as u32) * 256 + (edid[14] as u32) * 65536
            + (edid[15] as u32) * 16777216;
        let week: u8 = if edid[16] == 0xFF {
            0
        } else {
            edid[16]
        };
        let year: u16 = if edid[17] == 0 {
            0
        } else {
            1990 + edid[17] as u16
        };

        // Scan the four 18-byte descriptors for an ASCII serial (0xFF).
        let mut ascii_serial: Option<String> = None;
        let mut k: usize = 0;
        while k < 4
            invariant
                k <= 4,
                edid@.len() >= 128,
                opt_view(ascii_serial) == scan_serial(edid@, k as nat),
            decreases 4 - k,
        {
            let off = 54 + 18 * k;
            let ghost d = descriptor(edid@, k as int);
            proof {
                assert(d[0] == edid@[off as int]);
                assert(d[1] == edid@[off + 1]);
                assert(d[2] == edid@[off + 2]);
                assert(d[3] == edid@[off + 3]);
                assert(d[4] == edid@[off + 4]);
                assert(d.subrange(5, 18) =~= edid@.subrange(off + 5, off + 18));
            }
            if edid[off] == 0 && edid[off + 1] == 0 && edid[off + 2] == 0 && edid[off + 4] == 0 && edid[off
                + 3] == 0xFF {
                let text = decode_descriptor_text(edid, off + 5, off + 18);
                if text.as_str().unicode_len() > 0 {
                    ascii_serial = Some(text);
                }
            }
            k = k + 1;
        }
        let raw = sha256_hex(edid);
        Ok(MonitorFingerprint {
            pnp_manufacturer,
            product_code,
            numeric_serial,
            ascii_serial,
            week,
            year,
            raw_sha256: Some(raw),
        })
    }

    /// Build a fingerprint from already-parsed identity parts — for backends that expose parsed
    /// fields but not the raw EDID block.
    pub fn from_parts(pnp_manufacturer: String, product_code: u16, numeric_serial: u32, ascii_serial: Option<String>) -> (fp: Self)
        ensures
            fp.pnp_manufacturer == pnp_manufacturer,
            fp.product_code == product_code,
            fp.numeric_serial == numeric_serial,
            fp.ascii_serial == ascii_serial,
            fp.week == 0,
            fp.year == 0,
            fp.raw_sha256 is None,
    {
        MonitorFingerprint {
            pnp_manufacturer,
            product_code,
            numeric_serial,
            ascii_serial,
            week: 0,
            year: 0,
            raw_sha256: None,
        }
    }

    /// Stable cross-PC id: first 12 hex chars of SHA-256 over the composite identity fields.
    /// `week`/`year` and the raw-EDID hash are intentionally excluded, so a backend that exposes
    /// only parsed identity gives the same physical panel the same id.
    pub fn monitor_id(&self) -> (id: String)
        ensures
            id@ == self.id_spec(),
            id@.len() == 12,
            forall|i: int| 0 <= i < id@.len() ==> is_lower_hex_digit(#[trigger] id@[i]),
    {
        let mut c = String::new();
        c.append(self.pnp_manufacturer.as_str());
        string_push(&mut c, '|');
        push_dec(&mut c, self.product_code as u64);
        string_push(&mut c, '|');
        push_dec(&mut c, self.numeric_serial as u64);
        string_push(&mut c, '|');
        match &self.ascii_serial {
            Some(a) => c.append(a.as_str()),
            None => {},
        }
        proof {
            assert(c@ =~= composite(self.pnp_manufacturer@, self.product_code, self.numeric_serial, opt_view(self.ascii_serial)));
        }
        let bytes = c.as_str().as_bytes();
        let full = sha256_hex(bytes);
        let chars = crate::text::chars_of(full.as_str());
        let id = crate::text::string_of_range(&chars, 0, 12);
        proof {
            lemma_hex_lower_digits(sha256_of(bytes@));
            assert forall|i: int| 0 <= i < id@.len() implies is_lower_hex_digit(#[trigger] id@[i]) by {
                assert(id@[i] == full@[i]);
            }
        }
        id
    }

    /// True when this fingerprint carries no per-unit serial (numeric 0 AND no/empty ASCII
    /// serial), so two identical-model panels collide and require user labeling.
    pub fn is_ambiguous(&self) -> (b: bool)
        ensures
            b == ambiguous(self.numeric_serial, opt_view(self.ascii_serial)),
    {
        self.numeric_serial == 0 && match &self.ascii_serial {
            Some(a) => a.as_str().unicode_len() == 0,
            None => true,
        }
    }
}

} // verus!
