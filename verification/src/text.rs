//! Small, exactly specified text helpers: decimal/hex rendering of integers, string
//! equality, ASCII case folding and the whitespace class used by `trim`.

use vstd::prelude::*;
use vstd::string::StrSliceExecFns;

verus! {

/// The views of a sequence of strings.
pub open spec fn string_views(s: Seq<String>) -> Seq<Seq<char>> {
    s.map_values(|x: String| x@)
}

/// The character for one hexadecimal digit (upper case).
pub open spec fn hex_char(d: nat) -> char {
    if d < 10 {
        ((48 + d) as u8) as char
    } else {
        ((55 + d) as u8) as char
    }
}

/// The character for one decimal digit.
pub open spec fn dec_char(d: nat) -> char {
    ((48 + d) as u8) as char
}

/// Upper-case hexadecimal digits of `n`, without leading zeros (`0` renders as "0").
pub open spec fn hex_digits(n: nat) -> Seq<char>
    decreases n,
{
    if n < 16 {
        seq![hex_char(n)]
    } else {
        hex_digits(n / 16).push(hex_char(n % 16))
    }
}

/// Decimal digits of `n`, without leading zeros (`0` renders as "0").
pub open spec fn dec_digits(n: nat) -> Seq<char>
    decreases n,
{
    if n < 10 {
        seq![dec_char(n)]
    } else {
        dec_digits(n / 10).push(dec_char(n % 10))
    }
}

/// `format!("{:02X}", n)`: upper-case hex, zero-padded to at least two digits.
pub open spec fn hex02(n: nat) -> Seq<char> {
    if n < 16 {
        seq!['0'] + hex_digits(n)
    } else {
        hex_digits(n)
    }
}

/// Appends one character to a `String` (`String::push`).
#[verifier::external_body]
pub(crate) fn string_push(s: &mut String, c: char)
    ensures
        final(s)@ == old(s)@.push(c),
{
    s.push(c);
}

/// Appends the upper-case hexadecimal digits of `n`.
pub fn push_hex(s: &mut String, n: u64)
    ensures
        final(s)@ == old(s)@ + hex_digits(n as nat),
    decreases n,
{
    if n >= 16 {
        push_hex(s, n / 16);
    }
    let d = (n % 16) as u8;
    let c = if d < 10 {
        (48u8 + d) as char
    } else {
        (55u8 + d) as char
    };
    string_push(s, c);
    proof {
        assert(old(s)@ + hex_digits(n as nat) =~= (old(s)@ + (if n >= 16 { hex_digits((n / 16) as nat) } else { seq![] })).push(hex_char((n % 16) as nat)));
    }
}

/// Appends `format!("{:02X}", n)`.
pub fn push_hex02(s: &mut String, n: u64)
    ensures
        final(s)@ == old(s)@ + hex02(n as nat),
{
    if n < 16 {
        string_push(s, '0');
    }
    push_hex(s, n);
    proof {
        assert(final(s)@ =~= old(s)@ + hex02(n as nat));
    }
}

/// Appends the decimal digits of `n`.
pub fn push_dec(s: &mut String, n: u64)
    ensures
        final(s)@ == old(s)@ + dec_digits(n as nat),
    decreases n,
{
    if n >= 10 {
        push_dec(s, n / 10);
    }
    let d = (n % 10) as u8;
    string_push(s, (48u8 + d) as char);
    proof {
        assert(old(s)@ + dec_digits(n as nat) =~= (old(s)@ + (if n >= 10 { dec_digits((n / 10) as nat) } else { seq![] })).push(dec_char((n % 10) as nat)));
    }
}

/// String equality on `&str` by value.
pub fn str_eq(a: &str, b: &str) -> (r: bool)
    ensures
        r == (a@ == b@),
{
    let x = a.to_owned();
    let y = b.to_owned();
    x == y
}

/// The characters of `s`, in order.
pub fn chars_of(s: &str) -> (v: Vec<char>)
    ensures
        v@ == s@,
{
    let n = s.unicode_len();
    let mut v: Vec<char> = Vec::new();
    let mut i: usize = 0;
    while i < n
        invariant
            n == s@.len(),
            i <= n,
            v@ == s@.subrange(0, i as int),
        decreases n - i,
    {
        v.push(s.get_char(i));
        proof {
            assert(s@.subrange(0, i + 1) =~= s@.subrange(0, i as int).push(s@[i as int]));
        }
        i = i + 1;
    }
    proof {
        assert(s@.subrange(0, n as int) =~= s@);
    }
    v
}

/// A `String` holding exactly the characters `v[lo..hi]`.
pub fn string_of_range(v: &Vec<char>, lo: usize, hi: usize) -> (r: String)
    requires
        lo <= hi <= v@.len(),
    ensures
        r@ == v@.subrange(lo as int, hi as int),
{
    let mut r = String::new();
    let mut i: usize = lo;
    while i < hi
        invariant
            lo <= i <= hi <= v@.len(),
            r@ == v@.subrange(lo as int, i as int),
        decreases hi - i,
    {
        string_push(&mut r, v[i]);
        proof {
            assert(v@.subrange(lo as int, i + 1) =~= v@.subrange(lo as int, i as int).push(v@[i as int]));
        }
        i = i + 1;
    }
    r
}

/// Lexicographic order on character sequences by code point — the order of `str`'s `Ord`
/// (UTF-8 byte order and code-point order agree).
pub open spec fn chars_lt(a: Seq<char>, b: Seq<char>) -> bool
    decreases a.len(),
{
    if a.len() == 0 {
        b.len() > 0
    } else if b.len() == 0 {
        false
    } else if (a[0] as int) < (b[0] as int) {
        true
    } else if a[0] == b[0] {
        chars_lt(a.drop_first(), b.drop_first())
    } else {
        false
    }
}

/// `chars_lt` is transitive.
pub proof fn lemma_chars_lt_transitive(a: Seq<char>, b: Seq<char>, c: Seq<char>)
    requires
        chars_lt(a, b),
        chars_lt(b, c),
    ensures
        chars_lt(a, c),
    decreases a.len(),
{
    if a.len() > 0 && b.len() > 0 && c.len() > 0 && a[0] == b[0] && b[0] == c[0] {
        lemma_chars_lt_transitive(a.drop_first(), b.drop_first(), c.drop_first());
    }
}

/// `chars_lt` is irreflexive and total on distinct sequences.
pub proof fn lemma_chars_lt_total(a: Seq<char>, b: Seq<char>)
    ensures
        !chars_lt(a, a),
        a != b ==> (chars_lt(a, b) || chars_lt(b, a)),
        !(chars_lt(a, b) && chars_lt(b, a)),
    decreases a.len(),
{
    if a.len() > 0 {
        lemma_chars_lt_total(a.drop_first(), a.drop_first());
    }
    if a.len() > 0 && b.len() > 0 && a[0] == b[0] {
        lemma_chars_lt_total(a.drop_first(), b.drop_first());
        if a.drop_first() == b.drop_first() {
            assert(a =~= seq![a[0]] + a.drop_first());
            assert(b =~= seq![b[0]] + b.drop_first());
        }
    }
    if a.len() > 0 && b.len() > 0 && a[0] != b[0] {
        assert((a[0] as int) != (b[0] as int));
    }
    if a.len() == 0 && b.len() == 0 {
        assert(a =~= b);
    }
}

/// `a < b` in the lexicographic order of `str`.
pub fn str_lt(a: &str, b: &str) -> (r: bool)
    ensures
        r == chars_lt(a@, b@),
{
    let x = chars_of(a);
    let y = chars_of(b);
    let mut i: usize = 0;
    proof {
        assert(a@.skip(0) =~= a@);
        assert(b@.skip(0) =~= b@);
    }
    while i < x.len() && i < y.len()
        invariant
            x@ == a@,
            y@ == b@,
            i <= x@.len(),
            i <= y@.len(),
            chars_lt(a@, b@) == chars_lt(a@.skip(i as int), b@.skip(i as int)),
        decreases x@.len() - i,
    {
        let cx = x[i];
        let cy = y[i];
        proof {
            assert(a@.skip(i as int)[0] == cx);
            assert(b@.skip(i as int)[0] == cy);
        }
        if cx < cy {
            return true;
        }
        if cx != cy {
            return false;
        }
        proof {
            assert(a@.skip(i as int).drop_first() =~= a@.skip(i + 1));
            assert(b@.skip(i as int).drop_first() =~= b@.skip(i + 1));
        }
        i = i + 1;
    }
    i == x.len() && i < y.len()
}

/// The whitespace class of `char::is_whitespace` (Unicode `White_Space`).
pub open spec fn is_ws(c: char) -> bool {
    let n = c as int;
    (9 <= n <= 13) || n == 32 || n == 0x85 || n == 0xA0 || n == 0x1680 || (0x2000 <= n <= 0x200A)
        || n == 0x2028 || n == 0x2029 || n == 0x202F || n == 0x205F || n == 0x3000
}

/// `char::is_whitespace`.
pub fn char_is_ws(c: char) -> (b: bool)
    ensures
        b == is_ws(c),
{
    let n = c as u32;
    (9 <= n && n <= 13) || n == 32 || n == 0x85 || n == 0xA0 || n == 0x1680 || (0x2000 <= n && n <= 0x200A)
        || n == 0x2028 || n == 0x2029 || n == 0x202F || n == 0x205F || n == 0x3000
}

/// True when `s` is empty after trimming: every character is whitespace.
pub open spec fn is_blank(s: Seq<char>) -> bool {
    forall|i: int| 0 <= i < s.len() ==> is_ws(#[trigger] s[i])
}

/// `s.trim().is_empty()`.
pub fn str_is_blank(s: &str) -> (b: bool)
    ensures
        b == is_blank(s@),
{
    let v = chars_of(s);
    let mut i: usize = 0;
    while i < v.len()
        invariant
            v@ == s@,
            i <= v@.len(),
            forall|j: int| 0 <= j < i ==> is_ws(#[trigger] s@[j]),
        decreases v@.len() - i,
    {
        if !char_is_ws(v[i]) {
            return false;
        }
        i = i + 1;
    }
    true
}

/// `s` without leading whitespace.
pub open spec fn trim_start(s: Seq<char>) -> Seq<char>
    decreases s.len(),
{
    if s.len() > 0 && is_ws(s[0]) {
        trim_start(s.drop_first())
    } else {
        s
    }
}

/// `s` without trailing whitespace.
pub open spec fn trim_end(s: Seq<char>) -> Seq<char>
    decreases s.len(),
{
    if s.len() > 0 && is_ws(s.last()) {
        trim_end(s.drop_last())
    } else {
        s
    }
}

/// `str::trim`.
pub open spec fn trim(s: Seq<char>) -> Seq<char> {
    trim_end(trim_start(s))
}

/// `s.trim().to_owned()`.
pub fn str_trim(s: &str) -> (r: String)
    ensures
        r@ == trim(s@),
{
    let v = chars_of(s);
    let mut lo: usize = 0;
    proof {
        assert(s@.skip(0) =~= s@);
    }
    while lo < v.len() && char_is_ws(v[lo])
        invariant
            v@ == s@,
            lo <= v@.len(),
            trim_start(s@) == trim_start(s@.skip(lo as int)),
        decreases v@.len() - lo,
    {
        proof {
            assert(s@.skip(lo as int).drop_first() =~= s@.skip(lo + 1));
        }
        lo = lo + 1;
    }
    proof {
        assert(trim_start(s@) == s@.skip(lo as int));
        assert(s@.skip(lo as int) =~= s@.subrange(lo as int, s@.len() as int));
    }
    let mut hi: usize = v.len();
    while hi > lo && char_is_ws(v[hi - 1])
        invariant
            v@ == s@,
            lo <= hi <= v@.len(),
            trim(s@) == trim_end(s@.subrange(lo as int, hi as int)),
        decreases hi,
    {
        proof {
            assert(s@.subrange(lo as int, hi as int).drop_last() =~= s@.subrange(lo as int, hi - 1));
        }
        hi = hi - 1;
    }
    string_of_range(&v, lo, hi)
}

/// The character for one lower-case hexadecimal digit.
pub open spec fn hex_char_lower(d: nat) -> char {
    if d < 10 {
        ((48 + d) as u8) as char
    } else {
        ((87 + d) as u8) as char
    }
}

/// Lower-case hex of a byte string, two digits per byte (`format!("{b:02x}")` for each byte).
pub open spec fn hex_lower(bytes: Seq<u8>) -> Seq<char>
    decreases bytes.len(),
{
    if bytes.len() == 0 {
        seq![]
    } else {
        seq![hex_char_lower((bytes[0] / 16) as nat), hex_char_lower((bytes[0] % 16) as nat)]
            + hex_lower(bytes.drop_first())
    }
}

/// Two hex digits per byte: the length of `hex_lower`.
pub proof fn lemma_hex_lower_len(bytes: Seq<u8>)
    ensures
        hex_lower(bytes).len() == 2 * bytes.len(),
    decreases bytes.len(),
{
    if bytes.len() > 0 {
        lemma_hex_lower_len(bytes.drop_first());
    }
}

fn hex_digit_lower(d: u8) -> (c: char)
    requires
        d < 16,
    ensures
        c == hex_char_lower(d as nat),
{
    if d < 10 {
        (48u8 + d) as char
    } else {
        (87u8 + d) as char
    }
}

/// Lower-case hex encoding of `bytes`.
pub fn to_hex_lower(bytes: &[u8]) -> (r: String)
    ensures
        r@ == hex_lower(bytes@),
{
    let mut r = String::new();
    let mut i: usize = 0;
    proof {
        assert(bytes@.skip(0) =~= bytes@);
        assert(Seq::<char>::empty() + hex_lower(bytes@) =~= hex_lower(bytes@));
    }
    while i < bytes.len()
        invariant
            i <= bytes@.len(),
            hex_lower(bytes@) == r@ + hex_lower(bytes@.skip(i as int)),
        decreases bytes@.len() - i,
    {
        let b = bytes[i];
        let ghost r0 = r@;
        proof {
            assert(bytes@.skip(i as int).drop_first() =~= bytes@.skip(i + 1));
            assert(bytes@.skip(i as int)[0] == b);
        }
        string_push(&mut r, hex_digit_lower(b / 16));
        string_push(&mut r, hex_digit_lower(b % 16));
        proof {
            let h = seq![hex_char_lower((b / 16) as nat), hex_char_lower((b % 16) as nat)];
            assert(r@ =~= r0 + h);
            assert((r0 + h) + hex_lower(bytes@.skip(i + 1)) =~= r0 + (h + hex_lower(bytes@.skip(i + 1))));
        }
        i = i + 1;
    }
    proof {
        assert(bytes@.skip(bytes@.len() as int) =~= Seq::<u8>::empty());
        assert(r@ + Seq::<char>::empty() =~= r@);
    }
    r
}

/// `s.trim_end()` for a character vector.
pub fn string_trim_end(v: &Vec<char>) -> (r: String)
    ensures
        r@ == trim_end(v@),
{
    let mut hi: usize = v.len();
    proof {
        assert(v@.subrange(0, hi as int) =~= v@);
    }
    while hi > 0 && char_is_ws(v[hi - 1])
        invariant
            hi <= v@.len(),
            trim_end(v@) == trim_end(v@.subrange(0, hi as int)),
        decreases hi,
    {
        proof {
            assert(v@.subrange(0, hi as int).drop_last() =~= v@.subrange(0, hi - 1));
        }
        hi = hi - 1;
    }
    string_of_range(v, 0, hi)
}

/// Strictly increasing in `str` order.
pub open spec fn strictly_sorted(s: Seq<Seq<char>>) -> bool {
    forall|i: int, j: int| 0 <= i < j < s.len() ==> chars_lt(#[trigger] s[i], #[trigger] s[j])
}

/// Sorts distinct strings into increasing `str` order.
pub fn sort_distinct_strings(v: &Vec<String>) -> (r: Vec<String>)
    requires
        string_views(v@).no_duplicates(),
    ensures
        r@.len() == v@.len(),
        strictly_sorted(string_views(r@)),
        forall|s: Seq<char>| #[trigger] string_views(r@).contains(s) <==> string_views(v@).contains(s),
{
    let mut r: Vec<String> = Vec::new();
    let mut i: usize = 0;
    while i < v.len()
        invariant
            i <= v@.len(),
            r@.len() == i,
            string_views(v@).no_duplicates(),
            strictly_sorted(string_views(r@)),
            forall|s: Seq<char>|
                #[trigger] string_views(r@).contains(s) <==> string_views(v@).subrange(0, i as int).contains(s),
        decreases v@.len() - i,
    {
        let x = v[i].clone();
        let ghost rv = string_views(r@);
        proof {
            assert(string_views(v@)[i as int] == x@);
            assert(!rv.contains(x@)) by {
                if rv.contains(x@) {
                    let k = choose|k: int| 0 <= k < i && string_views(v@).subrange(0, i as int)[k] == x@;
                    assert(string_views(v@)[k] == string_views(v@)[i as int]);
                }
            }
        }
        let mut j: usize = 0;
        while j < r.len() && !str_lt(x.as_str(), r[j].as_str())
            invariant
                j <= r@.len(),
                rv == string_views(r@),
                forall|k: int| 0 <= k < j ==> !chars_lt(x@, #[trigger] rv[k]),
            decreases r@.len() - j,
        {
            j = j + 1;
        }
        let ghost r_old = r@;
        r.insert(j, x);
        proof {
            let nv = string_views(r@);
            assert(nv =~= rv.insert(j as int, x@));
            assert forall|a: int, b: int| 0 <= a < b < nv.len() implies chars_lt(#[trigger] nv[a], #[trigger] nv[b]) by {
                if a < j && b < j {
                    assert(nv[a] == rv[a] && nv[b] == rv[b]);
                } else if a < j && b == j {
                    assert(nv[a] == rv[a]);
                    assert(rv.contains(rv[a]));
                    lemma_chars_lt_total(x@, rv[a]);
                } else if a < j && b > j {
                    assert(nv[a] == rv[a] && nv[b] == rv[b - 1]);
                } else if a == j {
                    assert(nv[b] == rv[b - 1]);
                    if j < rv.len() {
                        assert(chars_lt(x@, rv[j as int]));
                        if b - 1 > j {
                            lemma_chars_lt_transitive(x@, rv[j as int], rv[b - 1]);
                        }
                    }
                } else {
                    assert(nv[a] == rv[a - 1] && nv[b] == rv[b - 1]);
                }
            }
            assert(string_views(v@).subrange(0, i + 1) =~= string_views(v@).subrange(0, i as int).push(x@));
            assert forall|s: Seq<char>| #[trigger] nv.contains(s) <==> string_views(v@).subrange(0, i + 1).contains(s) by {
                let vi = string_views(v@).subrange(0, i + 1);
                if nv.contains(s) {
                    let k = choose|k: int| 0 <= k < nv.len() && nv[k] == s;
                    if k == j {
                        assert(vi[i as int] == s);
                    } else {
                        if k < j {
                            assert(rv[k] == s);
                        } else {
                            assert(rv[k - 1] == s);
                        }
                        assert(rv.contains(s));
                        let m = choose|m: int| 0 <= m < i && string_views(v@).subrange(0, i as int)[m] == s;
                        assert(vi[m] == s);
                    }
                }
                if string_views(v@).subrange(0, i + 1).contains(s) {
                    if s == x@ {
                        assert(nv[j as int] == s);
                    } else {
                        assert(string_views(v@).subrange(0, i as int).contains(s));
                        assert(rv.contains(s));
                        let k = choose|k: int| 0 <= k < rv.len() && rv[k] == s;
                        if k < j {
                            assert(nv[k] == s);
                        } else {
                            assert(nv[k + 1] == s);
                        }
                    }
                }
            }
        }
        i = i + 1;
    }
    proof {
        assert(string_views(v@).subrange(0, v@.len() as int) =~= string_views(v@));
    }
    r
}

/// `needle` occurs in `hay` at position `i`.
pub open spec fn occurs_at(hay: Seq<char>, needle: Seq<char>, i: int) -> bool {
    0 <= i && i + needle.len() <= hay.len() && hay.subrange(i, i + needle.len()) == needle
}

/// `needle` occurs somewhere in `hay` (`str::contains`).
pub open spec fn contains_sub(hay: Seq<char>, needle: Seq<char>) -> bool {
    exists|i: int| #[trigger] occurs_at(hay, needle, i)
}

/// `hay.contains(needle)` on strings.
pub fn str_contains(hay: &str, needle: &str) -> (b: bool)
    ensures
        b == contains_sub(hay@, needle@),
{
    let h = chars_of(hay);
    let n = chars_of(needle);
    if n.len() > h.len() {
        proof {
            assert forall|i: int| !#[trigger] occurs_at(hay@, needle@, i) by {}
        }
        return false;
    }
    let last = h.len() - n.len();
    let mut i: usize = 0;
    while i <= last
        invariant
            h@ == hay@,
            n@ == needle@,
            last == h@.len() - n@.len(),
            i <= last + 1,
            forall|j: int| 0 <= j < i ==> !#[trigger] occurs_at(hay@, needle@, j),
        decreases last + 1 - i,
    {
        let mut k: usize = 0;
        let mut same = true;
        let hl = h.len();
        while k < n.len()
            invariant
                hl == h@.len(),
                h@ == hay@,
                n@ == needle@,
                i + n@.len() <= h@.len(),
                k <= n@.len(),
                same == (forall|m: int| 0 <= m < k ==> h@[i + m] == n@[m]),
            decreases n@.len() - k,
        {
            if h[i + k] != n[k] {
                same = false;
            }
            k = k + 1;
        }
        if same {
            proof {
                assert(hay@.subrange(i as int, i + needle@.len()) =~= needle@);
                assert(occurs_at(hay@, needle@, i as int));
            }
            return true;
        }
        proof {
            assert(!occurs_at(hay@, needle@, i as int)) by {
                if occurs_at(hay@, needle@, i as int) {
                    let m = choose|m: int| 0 <= m < n@.len() && h@[i + m] != n@[m];
                    assert(hay@.subrange(i as int, i + needle@.len())[m] == needle@[m]);
                }
            }
        }
        if i == last {
            proof {
                assert forall|j: int| !#[trigger] occurs_at(hay@, needle@, j) by {
                    if 0 <= j <= last as int {
                    }
                }
            }
            return false;
        }
        i = i + 1;
    }
    false
}

/// A lower-case hexadecimal digit.
pub open spec fn lower_hex_char(d: nat) -> char {
    if d < 10 {
        ((48 + d) as u8) as char
    } else {
        ((87 + d) as u8) as char
    }
}

/// How `{:?}` renders one character inside a string: the quote, the backslash and the common
/// control characters get their backslash escapes, other ASCII control characters become
/// `\u{..}` with lower-case hex digits, and every other character is kept.
pub open spec fn debug_escape_char(c: char) -> Seq<char> {
    let n = c as u32;
    if n == 0 {
        seq!['\\', '0']
    } else if n == 9 {
        seq!['\\', 't']
    } else if n == 10 {
        seq!['\\', 'n']
    } else if n == 13 {
        seq!['\\', 'r']
    } else if c == '"' {
        seq!['\\', '"']
    } else if c == '\\' {
        seq!['\\', '\\']
    } else if n < 32 || n == 127 {
        seq!['\\', 'u', '{'] + (if n < 16 {
            seq![lower_hex_char(n as nat)]
        } else {
            seq![lower_hex_char((n / 16) as nat), lower_hex_char((n % 16) as nat)]
        }) + seq!['}']
    } else {
        seq![c]
    }
}

/// A text with every character escaped as `{:?}` escapes it inside a string.
pub open spec fn debug_escaped(s: Seq<char>) -> Seq<char>
    decreases s.len(),
{
    if s.len() == 0 {
        seq![]
    } else {
        debug_escaped(s.drop_last()) + debug_escape_char(s.last())
    }
}

fn lower_hex_digit(d: u32) -> (c: char)
    requires
        d < 16,
    ensures
        c == lower_hex_char(d as nat),
{
    if d < 10 {
        ((48 + d) as u8) as char
    } else {
        ((87 + d) as u8) as char
    }
}

/// Appends `s` with its characters escaped as `{:?}` escapes them inside a string.
pub fn push_debug_escaped(out: &mut String, s: &str)
    ensures
        final(out)@ == old(out)@ + debug_escaped(s@),
{
    let v = chars_of(s);
    let mut i: usize = 0;
    while i < v.len()
        invariant
            v@ == s@,
            i <= v@.len(),
            out@ == old(out)@ + debug_escaped(s@.take(i as int)),
        decreases v@.len() - i,
    {
        let c = v[i];
        let n = c as u32;
        let ghost before = out@;
        if n == 0 {
            string_push(out, '\\');
            string_push(out, '0');
        } else if n == 9 {
            string_push(out, '\\');
            string_push(out, 't');
        } else if n == 10 {
            string_push(out, '\\');
            string_push(out, 'n');
        } else if n == 13 {
            string_push(out, '\\');
            string_push(out, 'r');
        } else if c == '"' {
            string_push(out, '\\');
            string_push(out, '"');
        } else if c == '\\' {
            string_push(out, '\\');
            string_push(out, '\\');
        } else if n < 32 || n == 127 {
            string_push(out, '\\');
            string_push(out, 'u');
            string_push(out, '{');
            if n >= 16 {
                string_push(out, lower_hex_digit(n / 16));
            }
            string_push(out, lower_hex_digit(n % 16));
            string_push(out, '}');
        } else {
            string_push(out, c);
        }
        proof {
            assert(s@.take(i + 1).drop_last() =~= s@.take(i as int));
            assert(s@.take(i + 1).last() == c);
            assert(out@ =~= before + debug_escape_char(c));
        }
        i = i + 1;
    }
    proof {
        assert(s@.take(v@.len() as int) =~= s@);
    }
}


/// A lower-case hexadecimal digit: `0`-`9` or `a`-`f`.
pub open spec fn is_lower_hex_digit(c: char) -> bool {
    (48 <= (c as u32) <= 57) || (97 <= (c as u32) <= 102)
}

/// Every character of `hex_lower` is a lower-case hexadecimal digit.
pub proof fn lemma_hex_lower_digits(bytes: Seq<u8>)
    ensures
        forall|i: int| 0 <= i < hex_lower(bytes).len() ==> is_lower_hex_digit(#[trigger] hex_lower(bytes)[i]),
    decreases bytes.len(),
{
    if bytes.len() > 0 {
        lemma_hex_lower_digits(bytes.drop_first());
        let hi = (bytes[0] / 16) as nat;
        let lo = (bytes[0] % 16) as nat;
        assert(is_lower_hex_digit(hex_char_lower(hi)));
        assert(is_lower_hex_digit(hex_char_lower(lo)));
        let h = hex_lower(bytes);
        let t = hex_lower(bytes.drop_first());
        assert forall|i: int| 0 <= i < h.len() implies is_lower_hex_digit(#[trigger] h[i]) by {
            if i >= 2 {
                assert(h[i] == t[i - 2]);
            }
        }
    }
}

proof fn lemma_trim_start_shape(s: Seq<char>)
    ensures
        trim_start(s).len() == 0 || !is_ws(trim_start(s)[0]),
    decreases s.len(),
{
    if s.len() > 0 && is_ws(s[0]) {
        lemma_trim_start_shape(s.drop_first());
    }
}

proof fn lemma_trim_end_shape(s: Seq<char>)
    ensures
        trim_end(s).len() <= s.len(),
        trim_end(s) == s.take(trim_end(s).len() as int),
        trim_end(s).len() == 0 || !is_ws(trim_end(s).last()),
    decreases s.len(),
{
    if s.len() > 0 && is_ws(s.last()) {
        lemma_trim_end_shape(s.drop_last());
        let k = trim_end(s.drop_last()).len() as int;
        assert(s.drop_last().take(k) =~= s.take(k));
    } else {
        assert(s.take(s.len() as int) =~= s);
    }
}

/// Trimming is idempotent: a trimmed text trims to itself.
pub proof fn lemma_trim_idempotent(s: Seq<char>)
    ensures
        trim(trim(s)) == trim(s),
{
    let t = trim_start(s);
    lemma_trim_start_shape(s);
    let u = trim_end(t);
    lemma_trim_end_shape(t);
    if u.len() > 0 {
        assert(u[0] == t[0]);
        assert(!is_ws(u[0]));
        assert(!is_ws(u.last()));
    }
    assert(trim_start(u) == u);
    assert(trim_end(u) == u);
}

} // verus!
