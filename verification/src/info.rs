//! `DeviceInfo`: a typed parse of the iBoot USB serial string that an
//! Apple device reports while in DFU/Recovery mode, e.g.
//!
//! ```text
//! CPID:8030 CPRV:11 CPFM:03 SCEP:01 BDID:04 ECID:000012...
//! SRTG:[iBoot-...] SRNM:[...] PWND:[...]
//! ```
//!
//! The contracts speak of the serial string as its sequence of
//! characters; a tag is looked up at its first occurrence.
use vstd::prelude::*;
use vstd::arithmetic::div_mod::lemma_breakdown;
use crate::text::{
    ascii_upper_seq, chars_of, find_from, first_occurrence, first_occurrence_from, hex_digit_value,
    hex_end, hex_numeral, hex_upper_char, lemma_hex_digit_class, lemma_ws_end, hex_val, hex_value, is_hex, is_ws, lemma_hex_end, occurs_at,
    push_hex_numeral, skip_c_space, skip_c_token, skip_hex_digits, skip_whitespace, string_of,
    to_ascii_upper, ws_end, c_space_end, c_token_end,
};

verus! {

/// Device info parsed from the iBoot serial string in DFU/Recovery mode.
#[derive(Debug, Default, Clone, PartialEq, Eq)]
pub struct DeviceInfo {
    pub cpid: u32,
    pub cprv: u32,
    pub cpfm: u32,
    pub scep: u32,
    pub bdid: u32,
    pub ecid: u64,
    pub ibfl: u32,
    pub srnm: Option<String>,
    pub imei: Option<String>,
    /// The `SRTG:[...]` tag, typically `"iBoot-x.y.z.a.b"`.
    pub srtg: Option<String>,
    pub serial_string: String,
    pub ap_nonce: Vec<u8>,
    pub sep_nonce: Vec<u8>,
    /// Whether the serial string carries a `PWND:` tag: the device has an
    /// exploited (checkm8) bootrom and is in Pwned DFU.
    pub pwnd: bool,
}

// ---------------------------------------------------------------------
// What the serial string says
// ---------------------------------------------------------------------

/// The CPID reported when the serial string carries none (early iOS 1-era
/// devices).
pub open spec fn default_cpid() -> u32 {
    0x8900
}

/// The index just past the first occurrence of `tag` in `s`.
pub open spec fn after_tag(s: Seq<char>, tag: Seq<char>) -> Option<int> {
    match first_occurrence(s, tag) {
        Some(i) => Some(i + tag.len()),
        None => None,
    }
}

/// The hexadecimal number right after the first `tag` in `s`, after any
/// white space: `None` when `tag` is absent, when no hexadecimal digit
/// follows, or when the digits' value does not fit in a `u64`.
pub open spec fn hex_field(s: Seq<char>, tag: Seq<char>) -> Option<u64> {
    match after_tag(s, tag) {
        None => None,
        Some(k) => {
            let a = ws_end(s, k);
            let e = hex_end(s, a);
            if e == a || hex_value(s.subrange(a, e)) > u64::MAX {
                None
            } else {
                Some(hex_value(s.subrange(a, e)) as u64)
            }
        },
    }
}

/// A 32-bit field: the number after `tag`, truncated to its low 32 bits,
/// or `default` when there is none.
pub open spec fn u32_field(s: Seq<char>, tag: Seq<char>, default: u32) -> u32 {
    match hex_field(s, tag) {
        Some(v) => v as u32,
        None => default,
    }
}

/// A 64-bit field: the number after `tag`, or 0 when there is none.
pub open spec fn u64_field(s: Seq<char>, tag: Seq<char>) -> u64 {
    match hex_field(s, tag) {
        Some(v) => v,
        None => 0,
    }
}

/// The index of the last `]` in `s[k..j]`, if there is one.
pub open spec fn last_close(s: Seq<char>, k: int, j: int) -> Option<int>
    decreases j - k,
{
    if j <= k {
        None
    } else if s[j - 1] == ']' {
        Some(j - 1)
    } else {
        last_close(s, k, j - 1)
    }
}

/// The value of a `TAG:[value]` field, as `sscanf("TAG:[%s]")` followed
/// by cutting at the last `]` reads it. After the first `tag_open` (which
/// ends in `[`), C white space (space, `\t`, `\n`, `\v`, `\f`, `\r`) is
/// skipped; the value is the token of characters up to the next C white
/// space or the end, cut before its last `]` (whole when it has none).
/// `None` when the tag is absent or no token follows it.
pub open spec fn bracketed(s: Seq<char>, tag_open: Seq<char>) -> Option<Seq<char>> {
    match after_tag(s, tag_open) {
        None => None,
        Some(k) => {
            let a = c_space_end(s, k);
            let e = c_token_end(s, a);
            if e == a {
                None
            } else {
                match last_close(s, a, e) {
                    Some(m) => Some(s.subrange(a, m)),
                    None => Some(s.subrange(a, e)),
                }
            }
        },
    }
}

/// Bytes from pairs of hexadecimal digits, high digit first; an odd last
/// digit is dropped.
pub open spec fn decode_hex_pairs(h: Seq<char>) -> Seq<u8> {
    Seq::new(h.len() / 2, |j: int| (hex_val(h[2 * j]) * 16 + hex_val(h[2 * j + 1])) as u8)
}

/// The nonce after the first `tag:`: the run of hexadecimal digits that
/// follows, decoded pairwise; empty when the tag is absent.
pub open spec fn nonce_field(s: Seq<char>, tag: Seq<char>) -> Seq<u8> {
    match after_tag(s, tag.push(':')) {
        None => Seq::empty(),
        Some(k) => decode_hex_pairs(s.subrange(k, hex_end(s, k))),
    }
}

/// The serial string carries a `PWND:` tag, in any ASCII case.
pub open spec fn pwnd_marked(s: Seq<char>) -> bool {
    first_occurrence(ascii_upper_seq(s), "PWND:"@) is Some
}

/// The 16-digit uppercase hexadecimal rendering of an ECID, or `None`
/// for ECID 0 (not reported).
pub open spec fn spec_ecid_hex(ecid: u64) -> Option<Seq<char>> {
    if ecid == 0 {
        None
    } else {
        Some(hex_numeral(ecid as nat, 16))
    }
}

// ---------------------------------------------------------------------
// Parsing
// ---------------------------------------------------------------------

/// The index just past the first occurrence of `tag` in `s`.
fn find_after(s: &Vec<char>, tag: &Vec<char>) -> (r: Option<usize>)
    ensures
        r matches Some(k) ==> after_tag(s@, tag@) == Some(k as int) && k <= s@.len(),
        r is None ==> after_tag(s@, tag@) is None,
{
    match find_from(s, tag, 0) {
        Some(i) => {
            proof {
                lemma_first_occurrence_from_bounds(s@, tag@, 0);
                assert(i + tag@.len() <= s@.len());
                assert(s@.len() == s.len());
            }
            Some(i + tag.len())
        },
        None => None,
    }
}

proof fn lemma_first_occurrence_from_bounds(s: Seq<char>, t: Seq<char>, i: int)
    ensures
        first_occurrence_from(s, t, i) matches Some(k) ==> i <= k && k + t.len() <= s.len()
            && occurs_at(s, t, k),
    decreases s.len() + 1 - i,
{
    if !(i < 0 || i + t.len() > s.len()) && !occurs_at(s, t, i) {
        lemma_first_occurrence_from_bounds(s, t, i + 1);
    }
}

/// Appending digits never lowers the value of a hexadecimal numeral.
proof fn lemma_hex_value_prefix(h: Seq<char>, k: int)
    requires
        0 <= k <= h.len(),
    ensures
        hex_value(h.take(k)) <= hex_value(h),
    decreases h.len(),
{
    if k < h.len() {
        assert(h.drop_last().take(k) =~= h.take(k));
        lemma_hex_value_prefix(h.drop_last(), k);
    } else {
        assert(h.take(k) =~= h);
    }
}

/// The hexadecimal number right after `tag`, skipping white space, as
/// `sscanf("%x")` reads it: `None` when absent, empty or too large.
fn parse_hex_u64(s: &Vec<char>, tag: &str) -> (r: Option<u64>)
    ensures
        r == hex_field(s@, tag@),
{
    let tag_chars = chars_of(tag);
    let k = match find_after(s, &tag_chars) {
        Some(k) => k,
        None => return None,
    };
    let a = skip_whitespace(s, k);
    let e = skip_hex_digits(s, a);
    if e == a {
        return None;
    }
    proof {
        lemma_hex_end(s@, a as int);
    }
    let mut v: u64 = 0;
    let mut j = a;
    while j < e
        invariant
            after_tag(s@, tag@) == Some(k as int),
            a == ws_end(s@, k as int),
            a < e,
            a <= j <= e <= s@.len(),
            e == hex_end(s@, a as int),
            forall|m: int| a <= m < e ==> is_hex(#[trigger] s@[m]),
            v == hex_value(s@.subrange(a as int, j as int)),
        decreases e - j,
    {
        let d = hex_digit_value(s[j]) as u64;
        assert(s@.subrange(a as int, j + 1).drop_last() =~= s@.subrange(a as int, j as int));
        assert(s@.subrange(a as int, j + 1).last() == s@[j as int]);
        if v > (u64::MAX - d) / 16 {
            proof {
                assert(v * 16 + d > u64::MAX) by (nonlinear_arith)
                    requires
                        v > (u64::MAX - d) / 16,
                        d < 16,
                ;
                assert(s@.subrange(a as int, e as int).take(j + 1 - a) =~= s@.subrange(
                    a as int,
                    j + 1,
                ));
                lemma_hex_value_prefix(s@.subrange(a as int, e as int), j + 1 - a);
                assert(hex_value(s@.subrange(a as int, e as int)) > u64::MAX);
            }
            return None;
        }
        v = v * 16 + d;
        j = j + 1;
    }
    Some(v)
}

/// The value of `TAG:[value]`: after the tag and any C white space, the
/// token up to the next C white space, cut before its last `]`.
fn parse_bracketed(s: &Vec<char>, tag_open: &str) -> (r: Option<String>)
    ensures
        r.deep_view() == bracketed(s@, tag_open@),
{
    let tag = chars_of(tag_open);
    let k = match find_after(s, &tag) {
        Some(k) => k,
        None => return None,
    };
    let a = skip_c_space(s, k);
    let e = skip_c_token(s, a);
    if e == a {
        return None;
    }
    let mut j = e;
    while j > a
        invariant
            tag@ == tag_open@,
            after_tag(s@, tag@) == Some(k as int),
            a == c_space_end(s@, k as int),
            e == c_token_end(s@, a as int),
            a < e,
            a <= j <= e <= s@.len(),
            last_close(s@, a as int, e as int) == last_close(s@, a as int, j as int),
        decreases j - a,
    {
        if s[j - 1] == ']' {
            return Some(string_of(s, a, j - 1));
        }
        j = j - 1;
    }
    Some(string_of(s, a, e))
}

/// The nonce after `TAG:` (`tag` given without the colon): the hex digits
/// that follow, decoded two per byte; empty when the tag is absent.
fn parse_nonce(s: &Vec<char>, tag: &str) -> (r: Vec<u8>)
    ensures
        r@ == nonce_field(s@, tag@),
{
    let mut needle = chars_of(tag);
    needle.push(':');
    let k = match find_after(s, &needle) {
        Some(k) => k,
        None => return Vec::new(),
    };
    let e = skip_hex_digits(s, k);
    proof {
        lemma_hex_end(s@, k as int);
    }
    let ghost h = s@.subrange(k as int, e as int);
    let count = (e - k) / 2;
    let mut out: Vec<u8> = Vec::new();
    let mut j: usize = 0;
    while j < count
        invariant
            k <= e <= s@.len(),
            h == s@.subrange(k as int, e as int),
            count == h.len() / 2,
            forall|m: int| k <= m < e ==> is_hex(#[trigger] s@[m]),
            j <= count,
            out@ =~= decode_hex_pairs(h).take(j as int),
        decreases count - j,
    {
        let hi = hex_digit_value(s[k + 2 * j]);
        let lo = hex_digit_value(s[k + 2 * j + 1]);
        out.push(hi * 16 + lo);
        j = j + 1;
    }
    assert(decode_hex_pairs(h).take(count as int) =~= decode_hex_pairs(h));
    out
}

/// Whether `s` carries a `PWND:` tag in any ASCII case.
fn is_pwnd_marked(s: &Vec<char>) -> (b: bool)
    ensures
        b == pwnd_marked(s@),
{
    let n = s.len();
    let mut upper: Vec<char> = Vec::new();
    let mut i: usize = 0;
    while i < n
        invariant
            n == s@.len(),
            i <= n,
            upper@ =~= ascii_upper_seq(s@).take(i as int),
        decreases n - i,
    {
        upper.push(to_ascii_upper(s[i]));
        i = i + 1;
    }
    assert(upper@ =~= ascii_upper_seq(s@));
    let marker = chars_of("PWND:");
    find_from(&upper, &marker, 0).is_some()
}

/// Powers of sixteen.
pub open spec fn pow16(n: nat) -> nat
    decreases n,
{
    if n == 0 {
        1
    } else {
        16 * pow16((n - 1) as nat)
    }
}

proof fn lemma_pow16_positive(n: nat)
    ensures
        pow16(n) > 0,
    decreases n,
{
    if n > 0 {
        lemma_pow16_positive((n - 1) as nat);
    }
}

/// An `n`-digit hexadecimal numeral consists of `n` hexadecimal digits
/// (none of them white space) and is worth its number modulo `16^n`.
proof fn lemma_hex_numeral_value(x: nat, n: nat)
    ensures
        hex_numeral(x, n).len() == n,
        forall|i: int|
            0 <= i < n ==> is_hex(#[trigger] hex_numeral(x, n)[i]) && !is_ws(
                hex_numeral(x, n)[i],
            ) && !('a' <= hex_numeral(x, n)[i] <= 'f'),
        hex_value(hex_numeral(x, n)) == x % pow16(n),
    decreases n,
{
    if n > 0 {
        let m = (n - 1) as nat;
        lemma_hex_numeral_value(x / 16, m);
        lemma_pow16_positive(m);
        let h = hex_numeral(x, n);
        let d = x % 16;
        assert(h.drop_last() =~= hex_numeral(x / 16, m));
        assert(hex_val(hex_upper_char(d)) == d);
        lemma_breakdown(x as int, 16, pow16(m) as int);
        assert(forall|i: int| 0 <= i < m ==> h[i] == hex_numeral(x / 16, m)[i]);
    }
}

/// `ecid_hex` renders an ECID as exactly 16 uppercase hexadecimal digits,
/// so that parsing reads it back: after an `ECID:` tag, the rendering of a
/// (non-zero) ECID parses as that ECID.
pub proof fn lemma_ecid_hex_roundtrip(ecid: u64)
    ensures
        spec_ecid_hex(ecid) matches Some(h) ==> {
            &&& h.len() == 16
            &&& forall|i: int| 0 <= i < 16 ==> is_hex(#[trigger] h[i]) && !('a' <= h[i] <= 'f')
            &&& u64_field("ECID:"@ + h, "ECID:"@) == ecid
        },
{
    if ecid != 0 {
        reveal_strlit("ECID:");
        let t = "ECID:"@;
        let h = hex_numeral(ecid as nat, 16);
        let s = t + h;
        lemma_hex_numeral_value(ecid as nat, 16);
        assert(s.subrange(0, 5) =~= t);
        assert(first_occurrence(s, t) == Some(0int));
        assert(after_tag(s, t) == Some(5int));
        assert(s[5] == h[0]);
        assert(ws_end(s, 5) == 5);
        lemma_hex_end(s, 5);
        assert(forall|i: int| 5 <= i < 21 ==> s[i] == h[i - 5]);
        if hex_end(s, 5) < 21 {
            assert(is_hex(s[hex_end(s, 5)]));
        }
        assert(hex_end(s, 5) == 21);
        assert(s.subrange(5, 21) =~= h);
        assert(pow16(16) == 0x1_0000_0000_0000_0000) by {
            reveal_with_fuel(pow16, 17);
        }
        assert(hex_value(h) == ecid);
    }
}

/// `s[k..a]` is white space and `a` ends it: `a` is the end
/// of the white space that starts at `k`.
pub open spec fn is_ws_run(s: Seq<char>, k: int, a: int) -> bool {
    &&& 0 <= k <= a <= s.len()
    &&& forall|m: int| k <= m < a ==> is_ws(#[trigger] s[m])
    &&& a == s.len() || !is_ws(s[a])
}

/// `s[a..e]` is hexadecimal digits and `e` ends them.
pub open spec fn is_hex_run(s: Seq<char>, a: int, e: int) -> bool {
    &&& 0 <= a <= e <= s.len()
    &&& forall|m: int| a <= m < e ==> is_hex(#[trigger] s[m])
    &&& e == s.len() || !is_hex(s[e])
}

/// A number field reads, after its tag and the white space that follows,
/// every hexadecimal digit up to the first other character: it is the
/// value of those digits when there is at least one and the value fits in
/// a `u64`, and absent otherwise.
pub proof fn lemma_hex_field_reads_all_digits(s: Seq<char>, tag: Seq<char>, k: int, a: int, e: int)
    requires
        after_tag(s, tag) == Some(k),
        is_ws_run(s, k, a),
        is_hex_run(s, a, e),
    ensures
        hex_field(s, tag) == (if e == a || hex_value(s.subrange(a, e)) > u64::MAX {
            None
        } else {
            Some(hex_value(s.subrange(a, e)) as u64)
        }),
{
    lemma_first_occurrence_from_bounds(s, tag, 0);
    lemma_ws_end(s, k);
    let w = ws_end(s, k);
    if w < a {
        assert(is_ws(s[w]));
    } else if a < w {
        assert(is_ws(s[a]));
    }
    lemma_hex_end(s, a);
    let h = hex_end(s, a);
    if h < e {
        assert(is_hex(s[h]));
    } else if e < h {
        assert(is_hex(s[e]));
    }
}

/// Every non-zero ECID has a rendering and only 0 has none; the rendering
/// is worth the ECID.
pub proof fn lemma_ecid_hex_defined(ecid: u64)
    ensures
        spec_ecid_hex(ecid) is None <==> ecid == 0,
        spec_ecid_hex(ecid) matches Some(h) ==> hex_value(h) == ecid,
{
    if ecid != 0 {
        lemma_hex_numeral_value(ecid as nat, 16);
        assert(pow16(16) == 0x1_0000_0000_0000_0000) by {
            reveal_with_fuel(pow16, 17);
        }
    }
}

/// The nonce after `tag:` decodes every pair of hexadecimal digits that
/// follows: it has one byte per pair, the digits it covers are all
/// hexadecimal, no further pair of digits follows them, and byte `j` is
/// the value of the digits at `2j` and `2j + 1` after the tag.
pub proof fn lemma_nonce_decodes_every_pair(s: Seq<char>, tag: Seq<char>, k: int)
    requires
        after_tag(s, tag.push(':')) == Some(k),
    ensures
        ({
            let b = nonce_field(s, tag);
            let n = b.len() as int;
            &&& k + 2 * n <= s.len()
            &&& forall|m: int| k <= m < k + 2 * n ==> is_hex(#[trigger] s[m])
            &&& !(k + 2 * n + 1 < s.len() && is_hex(s[k + 2 * n]) && is_hex(s[k + 2 * n + 1]))
            &&& forall|j: int|
                0 <= j < n ==> #[trigger] b[j] as nat == hex_val(s[k + 2 * j]) * 16 + hex_val(
                    s[k + 2 * j + 1],
                )
        }),
{
    lemma_first_occurrence_from_bounds(s, tag.push(':'), 0);
    lemma_hex_end(s, k);
    let e = hex_end(s, k);
    let h = s.subrange(k, e);
    let b = nonce_field(s, tag);
    assert(b == decode_hex_pairs(h));
    assert forall|j: int| 0 <= j < b.len() implies #[trigger] b[j] as nat == hex_val(s[k + 2 * j])
        * 16 + hex_val(s[k + 2 * j + 1]) by {
        assert(h[2 * j] == s[k + 2 * j]);
        assert(h[2 * j + 1] == s[k + 2 * j + 1]);
        assert(is_hex(s[k + 2 * j]) && is_hex(s[k + 2 * j + 1]));
        lemma_hex_digit_class(s[k + 2 * j]);
        lemma_hex_digit_class(s[k + 2 * j + 1]);
    }
}

/// A tag that does not occur leaves its field at the default: no number,
/// no bracketed text, an empty nonce.
pub proof fn lemma_missing_tag_defaults(s: Seq<char>, tag: Seq<char>)
    ensures
        first_occurrence(s, tag) is None ==> hex_field(s, tag) is None && bracketed(s, tag) is None,
        first_occurrence(s, tag.push(':')) is None ==> nonce_field(s, tag) =~= Seq::<u8>::empty(),
{
}

/// The pwned marker is case-insensitive: ASCII upper-casing the serial
/// string does not change whether it marks the device as pwned.
pub proof fn lemma_pwnd_case_insensitive(s: Seq<char>)
    ensures
        pwnd_marked(ascii_upper_seq(s)) == pwnd_marked(s),
{
    assert(ascii_upper_seq(ascii_upper_seq(s)) =~= ascii_upper_seq(s));
}

impl DeviceInfo {
    /// Parse an iBoot serial string. Never fails: a tag that is missing or
    /// malformed leaves its field at its default (CPID `0x8900`, every
    /// other number 0, no strings, empty nonces).
    pub fn parse(serial: &str) -> (info: DeviceInfo)
        ensures
            info.serial_string@ == serial@,
            info.cpid == u32_field(serial@, "CPID:"@, default_cpid()),
            info.cprv == u32_field(serial@, "CPRV:"@, 0),
            info.cpfm == u32_field(serial@, "CPFM:"@, 0),
            info.scep == u32_field(serial@, "SCEP:"@, 0),
            info.bdid == u32_field(serial@, "BDID:"@, 0),
            info.ecid == u64_field(serial@, "ECID:"@),
            info.ibfl == u32_field(serial@, "IBFL:"@, 0),
            info.srnm.deep_view() == bracketed(serial@, "SRNM:["@),
            info.imei.deep_view() == bracketed(serial@, "IMEI:["@),
            info.srtg.deep_view() == bracketed(serial@, "SRTG:["@),
            info.ap_nonce@ == nonce_field(serial@, "NONC"@),
            info.sep_nonce@ == nonce_field(serial@, "SNON"@),
            info.pwnd == pwnd_marked(serial@),
    {
        let s = chars_of(serial);
        let u32_or = |field: Option<u64>, default: u32| -> (r: u32)
            ensures
                r == (match field {
                    Some(v) => v as u32,
                    None => default,
                }),
            {
                match field {
                    Some(v) => v as u32,
                    None => default,
                }
            };
        let ecid = match parse_hex_u64(&s, "ECID:") {
            Some(v) => v,
            None => 0,
        };
        DeviceInfo {
            cpid: u32_or(parse_hex_u64(&s, "CPID:"), 0x8900),
            cprv: u32_or(parse_hex_u64(&s, "CPRV:"), 0),
            cpfm: u32_or(parse_hex_u64(&s, "CPFM:"), 0),
            scep: u32_or(parse_hex_u64(&s, "SCEP:"), 0),
            bdid: u32_or(parse_hex_u64(&s, "BDID:"), 0),
            ecid,
            ibfl: u32_or(parse_hex_u64(&s, "IBFL:"), 0),
            srnm: parse_bracketed(&s, "SRNM:["),
            imei: parse_bracketed(&s, "IMEI:["),
            srtg: parse_bracketed(&s, "SRTG:["),
            serial_string: serial.to_owned(),
            ap_nonce: parse_nonce(&s, "NONC"),
            sep_nonce: parse_nonce(&s, "SNON"),
            pwnd: is_pwnd_marked(&s),
        }
    }

    /// Whether this device has an exploited (checkm8) bootrom, i.e. is in
    /// Pwned DFU rather than plain DFU.
    pub fn is_pwned(&self) -> (b: bool)
        ensures
            b == self.pwnd,
    {
        self.pwnd
    }

    /// The `"iBoot-x.y.z.a.b"` string from `SRTG:[...]`, if present.
    pub fn iboot_version(&self) -> (v: Option<&str>)
        ensures
            v.deep_view() == self.srtg.deep_view(),
    {
        match &self.srtg {
            Some(s) => Some(s.as_str()),
            None => None,
        }
    }

    /// ECID as a 16-digit uppercase hex string; `None` if the ECID is 0
    /// (i.e. was not present in the serial string).
    pub fn ecid_hex(&self) -> (h: Option<String>)
        ensures
            h.deep_view() == spec_ecid_hex(self.ecid),
    {
        if self.ecid == 0 {
            None
        } else {
            let mut out = String::new();
            push_hex_numeral(&mut out, self.ecid, 16);
            assert(out@ =~= hex_numeral(self.ecid as nat, 16));
            Some(out)
        }
    }
}

} // verus!
