//! Output parser for the external downloader's stdout and stderr lines.
//!
//! The downloader's output format is not a stable contract, so every parse
//! here degrades to `Unknown` or absent values on malformed input instead of
//! failing.

use vstd::prelude::*;

use crate::progress::ProgressEvent;
use crate::text::{
    all_digits, char_idx, char_suffix_len, contains_ci, contains_str, contains_str_ci,
    contains_sub, dec_str, digit_val, digits_val, eq_ci, find_char, find_sub_at, first_token,
    first_token_exec, is_digit,
    lemma_digits_val_take_step, lemma_digits_val_upper, match_at, parse_u64, parse_u64_spec,
    pow10, split_char, split_spec, starts_with, str_eq_ci, strip_prefix_all,
    strip_prefix_repeated, strip_trailing, sub_idx, trim, trim_spec, views_of,
};

verus! {

use vstd::string::StrSliceExecFns;
use vstd::string::StringExecFns;

// ---------------------------------------------------------------------------
// Decimal tokens
// ---------------------------------------------------------------------------
/// The token without its optional leading sign.
pub open spec fn dec_body(s: Seq<char>) -> Seq<char> {
    if s.len() > 0 && (s[0] == '+' || s[0] == '-') {
        s.skip(1)
    } else {
        s
    }
}

/// Whether the token carries a minus sign.
pub open spec fn dec_negative(s: Seq<char>) -> bool {
    s.len() > 0 && s[0] == '-'
}

/// Digits before the decimal point.
pub open spec fn dec_int_part(s: Seq<char>) -> Seq<char> {
    let b = dec_body(s);
    if char_idx(b, '.') == -1 {
        b
    } else {
        b.take(char_idx(b, '.'))
    }
}

/// Digits after the decimal point.
pub open spec fn dec_frac_part(s: Seq<char>) -> Seq<char> {
    let b = dec_body(s);
    if char_idx(b, '.') == -1 {
        Seq::empty()
    } else {
        b.skip(char_idx(b, '.') + 1)
    }
}

/// A plain decimal numeral: optional sign, digits with at most one point, at
/// least one digit overall.
pub open spec fn dec_valid(s: Seq<char>) -> bool {
    all_digits(dec_int_part(s)) && all_digits(dec_frac_part(s)) && (dec_int_part(s).len() > 0
        || dec_frac_part(s).len() > 0)
}

/// Analyze a decimal token: validity, sign, integer digits, fraction digits.
fn dec_parts<'a>(u: &'a str) -> (r: (bool, bool, &'a str, &'a str))
    ensures
        r.0 == dec_valid(u@),
        r.1 == dec_negative(u@),
        r.0 ==> r.2@ == dec_int_part(u@) && r.3@ == dec_frac_part(u@) && all_digits(r.2@)
            && all_digits(r.3@),
{
    let n = u.unicode_len();
    let neg = n > 0 && u.get_char(0) == '-';
    let signed = neg || (n > 0 && u.get_char(0) == '+');
    let start: usize = if signed {
        1
    } else {
        0
    };
    let body = u.substring_char(start, n);
    proof {
        assert(body@ =~= dec_body(u@));
    }
    let bn = body.unicode_len();
    let (ipart, fpart): (&str, &str) = match find_char(body, '.') {
        Some(d) => {
            let i = body.substring_char(0, d);
            let f = body.substring_char(d + 1, bn);
            proof {
                assert(i@ =~= dec_int_part(u@));
                assert(f@ =~= dec_frac_part(u@));
            }
            (i, f)
        },
        None => {
            let f = body.substring_char(bn, bn);
            proof {
                assert(body@ =~= dec_int_part(u@));
                assert(f@ =~= dec_frac_part(u@));
            }
            (body, f)
        },
    };
    let ilen = ipart.unicode_len();
    let flen = fpart.unicode_len();
    if ilen == 0 && flen == 0 {
        return (false, neg, ipart, fpart);
    }
    let mut k: usize = 0;
    while k < ilen
        invariant
            0 <= k <= ilen,
            ilen == ipart@.len(),
            neg == dec_negative(u@),
            ipart@ == dec_int_part(u@),
            fpart@ == dec_frac_part(u@),
            forall|j: int| 0 <= j < k ==> is_digit(ipart@[j]),
        decreases ilen - k,
    {
        let c = ipart.get_char(k);
        let v = c as u32;
        if v < 48 || v > 57 {
            proof {
                assert(!is_digit(ipart@[k as int]));
            }
            return (false, neg, ipart, fpart);
        }
        k = k + 1;
    }
    let mut k2: usize = 0;
    while k2 < flen
        invariant
            0 <= k2 <= flen,
            flen == fpart@.len(),
            neg == dec_negative(u@),
            ipart@ == dec_int_part(u@),
            fpart@ == dec_frac_part(u@),
            all_digits(ipart@),
            forall|j: int| 0 <= j < k2 ==> is_digit(fpart@[j]),
        decreases flen - k2,
    {
        let c = fpart.get_char(k2);
        let v = c as u32;
        if v < 48 || v > 57 {
            proof {
                assert(!is_digit(fpart@[k2 as int]));
            }
            return (false, neg, ipart, fpart);
        }
        k2 = k2 + 1;
    }
    (true, neg, ipart, fpart)
}

// ---------------------------------------------------------------------------
// Percentage
// ---------------------------------------------------------------------------
/// Tokens treated as an unknown percentage.
pub open spec fn is_na_pct(t: Seq<char>) -> bool {
    eq_ci(t, "na"@) || eq_ci(t, "n/a"@) || eq_ci(t, "unknown"@)
}

/// Hundredths of a percent carried by the first two fraction digits.
pub open spec fn frac_centi(f: Seq<char>) -> nat {
    if f.len() == 0 {
        0
    } else if f.len() == 1 {
        digit_val(f[0]) * 10
    } else {
        digit_val(f[0]) * 10 + digit_val(f[1])
    }
}

/// Parsed percentage in hundredths of a percent, clamped to [0, 10000].
/// An optional "download:" prefix and an optional percent suffix are
/// stripped; unknown markers, malformed numerals and negative values give 0.
pub open spec fn pct_centi_spec(s: Seq<char>) -> u32 {
    let t0 = trim_spec(s);
    if is_na_pct(t0) {
        0
    } else {
        let t = if match_at(t0, "download:"@, 0) {
            t0.skip(9)
        } else {
            t0
        };
        let u = trim_spec(t.take(t.len() - char_suffix_len(t, '%')));
        if !dec_valid(u) || dec_negative(u) {
            0
        } else {
            let v = digits_val(dec_int_part(u)) * 100 + frac_centi(dec_frac_part(u));
            if v > 10000 {
                10000
            } else {
                v as u32
            }
        }
    }
}

/// Parse a percentage token such as "45.2", "45.2%", or "NA".
pub fn parse_percentage(s: &str) -> (r: u32)
    ensures
        r == pct_centi_spec(s@),
        r <= 10000,
{
    let t0 = trim(s);
    if str_eq_ci(t0, "na") || str_eq_ci(t0, "n/a") || str_eq_ci(t0, "unknown") {
        return 0;
    }
    let t: &str = if starts_with(t0, "download:") {
        proof {
            reveal_strlit("download:");
        }
        let cut = t0.substring_char(9, t0.unicode_len());
        proof {
            assert(cut@ =~= trim_spec(s@).skip(9));
        }
        cut
    } else {
        t0
    };
    let u0 = strip_trailing(t, '%');
    let u = trim(u0);
    let (valid, neg, ipart, fpart) = dec_parts(u);
    if !valid || neg {
        return 0;
    }
    let ilen = ipart.unicode_len();
    let mut i: usize = 0;
    let mut acc: u32 = 0;
    while i < ilen
        invariant
            0 <= i <= ilen,
            ilen == ipart@.len(),
            all_digits(ipart@),
            digits_val(ipart@.take(i as int)) <= 101 ==> acc == digits_val(ipart@.take(i as int)),
            digits_val(ipart@.take(i as int)) > 101 ==> acc == 101,
            acc <= 101,
        decreases ilen - i,
    {
        let c = ipart.get_char(i);
        let d = (c as u32) - 48;
        proof {
            lemma_digits_val_take_step(ipart@, i as int);
            assert(is_digit(ipart@[i as int]));
        }
        let next = acc * 10 + d;
        acc = if next > 101 {
            101
        } else {
            next
        };
        i = i + 1;
    }
    proof {
        assert(ipart@.take(ilen as int) =~= ipart@);
    }
    if acc > 100 {
        return 10000;
    }
    let flen = fpart.unicode_len();
    let fc: u32 = if flen == 0 {
        0
    } else if flen == 1 {
        let d0 = (fpart.get_char(0) as u32) - 48;
        proof {
            assert(is_digit(fpart@[0]));
        }
        d0 * 10
    } else {
        let d0 = (fpart.get_char(0) as u32) - 48;
        let d1 = (fpart.get_char(1) as u32) - 48;
        proof {
            assert(is_digit(fpart@[0]));
            assert(is_digit(fpart@[1]));
        }
        d0 * 10 + d1
    };
    let v = acc * 100 + fc;
    if v > 10000 {
        10000
    } else {
        v
    }
}

// ---------------------------------------------------------------------------
// Byte sizes
// ---------------------------------------------------------------------------
/// Tokens treated as an absent byte count.
pub open spec fn is_absent_token(t: Seq<char>) -> bool {
    t.len() == 0 || eq_ci(t, "n/a"@) || eq_ci(t, "na"@) || eq_ci(t, "unknown"@) || eq_ci(
        t,
        "none"@,
    )
}

/// Multiplier of a size unit suffix; unrecognized units count as bytes.
pub open spec fn unit_mult(u: Seq<char>) -> nat {
    if u.len() == 0 || eq_ci(u, "b"@) {
        1
    } else if eq_ci(u, "kib"@) || eq_ci(u, "kb"@) || eq_ci(u, "k"@) {
        1024
    } else if eq_ci(u, "mib"@) || eq_ci(u, "mb"@) || eq_ci(u, "m"@) {
        1048576
    } else if eq_ci(u, "gib"@) || eq_ci(u, "gb"@) || eq_ci(u, "g"@) {
        1073741824
    } else if eq_ci(u, "tib"@) || eq_ci(u, "tb"@) || eq_ci(u, "t"@) {
        1099511627776
    } else {
        1
    }
}

/// Value contributed by the fraction digits once scaled by the unit; only the
/// first fifteen fraction digits take part.
pub open spec fn frac_scaled(f: Seq<char>, mult: nat) -> nat {
    let k = if f.len() > 15 {
        15int
    } else {
        f.len() as int
    };
    digits_val(f.take(k)) * mult / pow10(k)
}

/// A decimal numeral scaled by a unit multiplier and truncated to `u64`:
/// negative values floor to 0 and overflowing values saturate.
pub open spec fn dec_scaled_u64(s: Seq<char>, mult: nat) -> u64 {
    if dec_negative(s) {
        0
    } else {
        let v = digits_val(dec_int_part(s)) * mult + frac_scaled(dec_frac_part(s), mult);
        if v > u64::MAX {
            u64::MAX
        } else {
            v as u64
        }
    }
}

/// A character that may belong to the numeric prefix of a size token.
pub open spec fn is_num_char(c: char) -> bool {
    is_digit(c) || c == '.' || c == '-'
}

/// Length of the numeric prefix of a size token.
pub open spec fn num_prefix_len(s: Seq<char>) -> int
    decreases s.len(),
{
    if s.len() == 0 {
        0
    } else if is_num_char(s[0]) {
        1 + num_prefix_len(s.subrange(1, s.len() as int))
    } else {
        0
    }
}

proof fn lemma_num_prefix_unique(s: Seq<char>, p: int)
    requires
        0 <= p <= s.len(),
        forall|k: int| 0 <= k < p ==> is_num_char(s[k]),
        p < s.len() ==> !is_num_char(s[p]),
    ensures
        num_prefix_len(s) == p,
    decreases s.len(),
{
    if s.len() == 0 {
    } else if is_num_char(s[0]) {
        assert(p >= 1) by {
            if p == 0 {
                assert(!is_num_char(s[0]));
            }
        }
        let t = s.subrange(1, s.len() as int);
        assert forall|k: int| 0 <= k < p - 1 implies is_num_char(t[k]) by {
            assert(t[k] == s[k + 1]);
        }
        if p - 1 < t.len() {
            assert(t[p - 1] == s[p]);
        }
        lemma_num_prefix_unique(t, p - 1);
    } else {
        assert(p == 0) by {
            if p > 0 {
                assert(is_num_char(s[0]));
            }
        }
    }
}

/// Parsed byte count: raw integers, plain decimals, or a decimal with a unit
/// suffix; unknown markers and malformed tokens are absent.
pub open spec fn parse_bytes_opt_spec(s: Seq<char>) -> Option<u64> {
    let t = trim_spec(s);
    if is_absent_token(t) {
        None
    } else if parse_u64_spec(t) is Some {
        parse_u64_spec(t)
    } else if dec_valid(t) {
        Some(dec_scaled_u64(t, 1))
    } else {
        let ne = num_prefix_len(t);
        let nums = t.take(ne);
        let unit = t.skip(ne);
        if dec_valid(nums) {
            Some(dec_scaled_u64(nums, unit_mult(unit)))
        } else {
            None
        }
    }
}

/// Executable unit multiplier lookup.
fn unit_mult_exec(u: &str) -> (r: u64)
    ensures
        r == unit_mult(u@),
        1 <= r <= 1099511627776,
{
    if u.unicode_len() == 0 || str_eq_ci(u, "b") {
        1
    } else if str_eq_ci(u, "kib") || str_eq_ci(u, "kb") || str_eq_ci(u, "k") {
        1024
    } else if str_eq_ci(u, "mib") || str_eq_ci(u, "mb") || str_eq_ci(u, "m") {
        1048576
    } else if str_eq_ci(u, "gib") || str_eq_ci(u, "gb") || str_eq_ci(u, "g") {
        1073741824
    } else if str_eq_ci(u, "tib") || str_eq_ci(u, "tb") || str_eq_ci(u, "t") {
        1099511627776
    } else {
        1
    }
}

fn pow10_exec(k: usize) -> (r: u64)
    requires
        k <= 15,
    ensures
        r == pow10(k as int),
        1 <= r <= 1000000000000000,
{
    let mut i: usize = 0;
    let mut r: u64 = 1;
    while i < k
        invariant
            0 <= i <= k <= 15,
            r == pow10(i as int),
            1 <= r <= 1000000000000000,
        decreases k - i,
    {
        proof {
            assert(pow10(i + 1) == 10 * pow10(i as int));
            lemma_pow10_bounds(i + 1);
        }
        r = r * 10;
        i = i + 1;
    }
    r
}

proof fn lemma_pow10_mono(a: int, b: int)
    requires
        0 <= a <= b,
    ensures
        pow10(a) <= pow10(b),
    decreases b,
{
    if a < b {
        lemma_pow10_mono(a, b - 1);
    }
}

proof fn lemma_pow10_bounds(k: int)
    requires
        0 <= k <= 15,
    ensures
        pow10(k) <= 1000000000000000,
{
    lemma_pow10_mono(k, 15);
    assert(pow10(15) == 1000000000000000) by {
        reveal_with_fuel(pow10, 17);
    }
}

/// Scale validated decimal digits by a unit multiplier, saturating at
/// `u64::MAX` and flooring negative values to zero.
fn dec_scaled_exec(ipart: &str, fpart: &str, neg: bool, mult: u64) -> (r: u64)
    requires
        all_digits(ipart@),
        all_digits(fpart@),
        1 <= mult <= 1099511627776,
    ensures
        ({
            let v = digits_val(ipart@) * mult + frac_scaled(fpart@, mult as nat);
            r == if neg {
                0u64
            } else if v > u64::MAX {
                u64::MAX
            } else {
                v as u64
            }
        }),
{
    if neg {
        return 0;
    }
    let ilen = ipart.unicode_len();
    let cap: u128 = 0x1_0000_0000_0000_0000u128;
    let mut i: usize = 0;
    let mut acc: u128 = 0;
    while i < ilen
        invariant
            0 <= i <= ilen,
            ilen == ipart@.len(),
            all_digits(ipart@),
            cap == 0x1_0000_0000_0000_0000u128,
            digits_val(ipart@.take(i as int)) <= cap ==> acc == digits_val(ipart@.take(i as int)),
            digits_val(ipart@.take(i as int)) > cap ==> acc == cap,
            acc <= cap,
        decreases ilen - i,
    {
        let c = ipart.get_char(i);
        let d = ((c as u32) - 48) as u128;
        proof {
            lemma_digits_val_take_step(ipart@, i as int);
            assert(is_digit(ipart@[i as int]));
        }
        let next = acc * 10 + d;
        acc = if next > cap {
            cap
        } else {
            next
        };
        i = i + 1;
    }
    proof {
        assert(ipart@.take(ilen as int) =~= ipart@);
    }
    if acc >= cap {
        // The integer part alone already exceeds the largest representable
        // byte count.
        proof {
            assert(digits_val(ipart@) * mult >= digits_val(ipart@) * 1) by (nonlinear_arith)
                requires
                    mult >= 1,
            ;
        }
        return u64::MAX;
    }
    let flen = fpart.unicode_len();
    let k: usize = if flen > 15 {
        15
    } else {
        flen
    };
    let mut j: usize = 0;
    let mut fv: u64 = 0;
    while j < k
        invariant
            0 <= j <= k <= 15,
            k <= fpart@.len(),
            all_digits(fpart@),
            fv == digits_val(fpart@.take(j as int)),
            fv < 1000000000000000,
        decreases k - j,
    {
        let c = fpart.get_char(j);
        let d = ((c as u32) - 48) as u64;
        proof {
            lemma_digits_val_take_step(fpart@, j as int);
            assert(is_digit(fpart@[j as int]));
            lemma_digits_val_upper(fpart@.take(j + 1));
            lemma_pow10_bounds(j + 1);
        }
        fv = fv * 10 + d;
        j = j + 1;
    }
    let p = pow10_exec(k);
    proof {
        assert((fv as u128) * (mult as u128) <= 1000000000000000u128 * 1099511627776u128)
            by (nonlinear_arith)
            requires
                0 <= fv < 1000000000000000u128 && 0 <= mult <= 1099511627776u128,
        ;
    }
    let fscaled: u128 = (fv as u128) * (mult as u128) / (p as u128);
    proof {
        assert(fpart@.take(k as int) == fpart@.take(
            if fpart@.len() > 15 {
                15int
            } else {
                fpart@.len() as int
            },
        ));
        assert(fscaled == frac_scaled(fpart@, mult as nat));
        assert(fscaled <= (fv as u128) * (mult as u128)) by (nonlinear_arith)
            requires
                p >= 1 && fscaled as int == (fv as int) * (mult as int) / (p as int),
        ;
        assert((acc as u128) * (mult as u128) <= 0x1_0000_0000_0000_0000u128 * 1099511627776u128)
            by (nonlinear_arith)
            requires
                0 <= acc <= 0x1_0000_0000_0000_0000u128 && 0 <= mult <= 1099511627776u128,
        ;
    }
    let total: u128 = acc * (mult as u128) + fscaled;
    if total > u64::MAX as u128 {
        u64::MAX
    } else {
        total as u64
    }
}

/// Parse a raw byte number or a human-formatted size such as "23.5MiB".
/// Returns `None` for "N/A", "NA", "Unknown", "None", empty, or unparseable
/// tokens.
pub fn parse_bytes_raw_or_formatted_optional(s: &str) -> (r: Option<u64>)
    ensures
        r == parse_bytes_opt_spec(s@),
{
    let t = trim(s);
    if t.unicode_len() == 0 || str_eq_ci(t, "n/a") || str_eq_ci(t, "na") || str_eq_ci(t, "unknown")
        || str_eq_ci(t, "none") {
        return None;
    }
    match parse_u64(t) {
        Some(v) => Some(v),
        None => {
            let (valid, neg, ipart, fpart) = dec_parts(t);
            if valid {
                Some(dec_scaled_exec(ipart, fpart, neg, 1))
            } else {
                // Numeric prefix plus unit suffix.
                let n = t.unicode_len();
                let mut ne: usize = 0;
                while ne < n && is_num_char_exec(t.get_char(ne))
                    invariant
                        0 <= ne <= n,
                        n == t@.len(),
                        forall|k: int| 0 <= k < ne ==> is_num_char(t@[k]),
                    decreases n - ne,
                {
                    ne = ne + 1;
                }
                proof {
                    lemma_num_prefix_unique(t@, ne as int);
                }
                let nums = t.substring_char(0, ne);
                let unit = t.substring_char(ne, n);
                proof {
                    assert(nums@ =~= t@.take(ne as int));
                    assert(unit@ =~= t@.skip(ne as int));
                }
                let (nvalid, nneg, nipart, nfpart) = dec_parts(nums);
                if nvalid {
                    let mult = unit_mult_exec(unit);
                    Some(dec_scaled_exec(nipart, nfpart, nneg, mult))
                } else {
                    None
                }
            }
        },
    }
}

/// Parse a byte token, defaulting absent values to zero.
pub fn parse_bytes_raw_or_formatted(s: &str) -> (r: u64)
    ensures
        r == match parse_bytes_opt_spec(s@) {
            Some(v) => v,
            None => 0u64,
        },
{
    match parse_bytes_raw_or_formatted_optional(s) {
        Some(v) => v,
        None => 0,
    }
}

/// Parse a byte token to an optional count.
pub fn parse_bytes_optional(s: &str) -> (r: Option<u64>)
    ensures
        r == parse_bytes_opt_spec(s@),
{
    parse_bytes_raw_or_formatted_optional(s)
}

fn is_num_char_exec(c: char) -> (r: bool)
    ensures
        r == is_num_char(c),
{
    let v = c as u32;
    (48 <= v && v <= 57) || c == '.' || c == '-'
}

// ---------------------------------------------------------------------------
// ETA
// ---------------------------------------------------------------------------
/// Parsed ETA in seconds from "SS", "MM:SS" or "HH:MM:SS"; unknown markers,
/// malformed fields and out-of-range values are absent.
pub open spec fn eta_spec(s: Seq<char>) -> Option<u64> {
    let t = trim_spec(s);
    if t.len() == 0 || eq_ci(t, "n/a"@) || eq_ci(t, "unknown"@) {
        None
    } else {
        let parts = split_spec(t, ':');
        if parts.len() == 1 {
            parse_u64_spec(parts[0])
        } else if parts.len() == 2 {
            match (parse_u64_spec(parts[0]), parse_u64_spec(parts[1])) {
                (Some(m), Some(sec)) => {
                    if m * 60 + sec <= u64::MAX {
                        Some((m * 60 + sec) as u64)
                    } else {
                        None
                    }
                },
                _ => None,
            }
        } else if parts.len() == 3 {
            match (parse_u64_spec(parts[0]), parse_u64_spec(parts[1]), parse_u64_spec(parts[2])) {
                (Some(h), Some(m), Some(sec)) => {
                    if h * 3600 + m * 60 + sec <= u64::MAX {
                        Some((h * 3600 + m * 60 + sec) as u64)
                    } else {
                        None
                    }
                },
                _ => None,
            }
        } else {
            None
        }
    }
}

/// Parse an ETA token such as "00:12", "01:30:45", "45" or "N/A".
pub fn parse_eta(s: &str) -> (r: Option<u64>)
    ensures
        r == eta_spec(s@),
{
    let t = trim(s);
    if t.unicode_len() == 0 || str_eq_ci(t, "n/a") || str_eq_ci(t, "unknown") {
        return None;
    }
    let parts = split_char(t, ':');
    proof {
        assert(views_of(parts@) == split_spec(t@, ':'));
    }
    if parts.len() == 1 {
        proof {
            assert(parts@[0]@ == split_spec(t@, ':')[0]);
        }
        parse_u64(parts[0].as_str())
    } else if parts.len() == 2 {
        proof {
            assert(parts@[0]@ == split_spec(t@, ':')[0]);
            assert(parts@[1]@ == split_spec(t@, ':')[1]);
        }
        let m = parse_u64(parts[0].as_str());
        let sec = parse_u64(parts[1].as_str());
        match (m, sec) {
            (Some(m), Some(sec)) => {
                let total: u128 = (m as u128) * 60 + (sec as u128);
                if total <= u64::MAX as u128 {
                    Some(total as u64)
                } else {
                    None
                }
            },
            _ => None,
        }
    } else if parts.len() == 3 {
        proof {
            assert(parts@[0]@ == split_spec(t@, ':')[0]);
            assert(parts@[1]@ == split_spec(t@, ':')[1]);
            assert(parts@[2]@ == split_spec(t@, ':')[2]);
        }
        let h = parse_u64(parts[0].as_str());
        let m = parse_u64(parts[1].as_str());
        let sec = parse_u64(parts[2].as_str());
        match (h, m, sec) {
            (Some(h), Some(m), Some(sec)) => {
                let total: u128 = (h as u128) * 3600 + (m as u128) * 60 + (sec as u128);
                if total <= u64::MAX as u128 {
                    Some(total as u64)
                } else {
                    None
                }
            },
            _ => None,
        }
    } else {
        None
    }
}

// ---------------------------------------------------------------------------
// Speed
// ---------------------------------------------------------------------------
/// Cleaned speed display string: trimmed, with unknown markers normalized to
/// the placeholder "--".
pub open spec fn speed_spec(s: Seq<char>) -> Seq<char> {
    let t = trim_spec(s);
    if eq_ci(t, "unknown"@) || eq_ci(t, "n/a"@) || eq_ci(t, "na"@) {
        "--"@
    } else {
        t
    }
}

/// Clean a speed token.
pub fn clean_speed_string(s: &str) -> (r: String)
    ensures
        r@ == speed_spec(s@),
{
    let t = trim(s);
    if str_eq_ci(t, "unknown") || str_eq_ci(t, "n/a") || str_eq_ci(t, "na") {
        String::from_str("--")
    } else {
        t.to_owned()
    }
}

// ---------------------------------------------------------------------------
// Line classification
// ---------------------------------------------------------------------------
/// Result of parsing one stdout line.
#[derive(Debug, Clone, PartialEq)]
pub enum ParsedLine {
    /// A progress update during download.
    Progress(ProgressEvent),
    /// The merging phase was detected.
    Merging,
    /// The line carries no progress information.
    Unknown,
}

/// A line carrying one of the three merge-phase markers.
pub open spec fn has_merge_marker(t: Seq<char>) -> bool {
    contains_sub(t, "[Merger]"@) || contains_sub(t, "Merging"@) || contains_sub(t, "[ffmpeg]"@)
}

// --- pipe-delimited format -------------------------------------------------
/// Fields of a pipe-delimited progress line.
pub open spec fn pipe_fields(data: Seq<char>) -> Seq<Seq<char>> {
    split_spec(data, '|')
}

/// Downloaded bytes of a pipe-delimited line, absent counting as zero.
pub open spec fn pipe_downloaded(data: Seq<char>) -> u64 {
    match parse_bytes_opt_spec(pipe_fields(data)[1]) {
        Some(v) => v,
        None => 0u64,
    }
}

/// Total bytes of a pipe-delimited line.
pub open spec fn pipe_total(data: Seq<char>) -> Option<u64> {
    parse_bytes_opt_spec(pipe_fields(data)[2])
}

/// Percentage of a pipe-delimited line: the reported percentage, or, when it
/// is zero with bytes present, the ratio of downloaded to total bytes capped
/// at one hundred percent.
pub open spec fn pipe_pct(data: Seq<char>) -> u32 {
    let raw = pct_centi_spec(pipe_fields(data)[0]);
    let d = pipe_downloaded(data);
    match pipe_total(data) {
        Some(t) => {
            if raw == 0 && d > 0 && t > 0 {
                let ratio = (d as int) * 10000 / (t as int);
                if ratio > 10000 {
                    10000u32
                } else {
                    ratio as u32
                }
            } else {
                raw
            }
        },
        None => raw,
    }
}

/// Relation between a pipe-delimited line and the progress event made of it.
pub open spec fn pipe_event_ok(data: Seq<char>, e: ProgressEvent) -> bool {
    &&& e.percentage == pipe_pct(data)
    &&& e.downloaded_bytes == pipe_downloaded(data)
    &&& e.total_bytes == pipe_total(data)
    &&& e.speed@ == speed_spec(pipe_fields(data)[3])
    &&& e.eta_seconds == eta_spec(pipe_fields(data)[4])
    &&& e.status@ == "downloading"@
}

/// What parsing a pipe-delimited payload yields.
pub open spec fn pipe_post(data: Seq<char>, r: ParsedLine) -> bool {
    if pipe_fields(data).len() >= 5 {
        match r {
            ParsedLine::Progress(e) => pipe_event_ok(data, e) && e.wf(),
            _ => false,
        }
    } else {
        r == ParsedLine::Unknown
    }
}

/// Parse a pipe-delimited progress payload:
/// `percentage|downloaded|total|speed|eta`.
pub fn parse_pipe_delimited_line(data: &str) -> (r: ParsedLine)
    ensures
        pipe_post(data@, r),
{
    let parts = split_char(data, '|');
    proof {
        assert(views_of(parts@) == pipe_fields(data@));
    }
    if parts.len() < 5 {
        return ParsedLine::Unknown;
    }
    proof {
        assert(parts@[0]@ == pipe_fields(data@)[0]);
        assert(parts@[1]@ == pipe_fields(data@)[1]);
        assert(parts@[2]@ == pipe_fields(data@)[2]);
        assert(parts@[3]@ == pipe_fields(data@)[3]);
        assert(parts@[4]@ == pipe_fields(data@)[4]);
    }
    let raw = parse_percentage(parts[0].as_str());
    let downloaded = parse_bytes_raw_or_formatted(parts[1].as_str());
    let total = parse_bytes_raw_or_formatted_optional(parts[2].as_str());
    let speed = clean_speed_string(parts[3].as_str());
    let eta = parse_eta(parts[4].as_str());
    let percentage: u32 = match total {
        Some(t) => {
            if raw == 0 && downloaded > 0 && t > 0 {
                let ratio: u128 = (downloaded as u128) * 10000 / (t as u128);
                if ratio > 10000 {
                    10000
                } else {
                    ratio as u32
                }
            } else {
                raw
            }
        },
        None => raw,
    };
    ParsedLine::Progress(
        ProgressEvent {
            percentage,
            downloaded_bytes: downloaded,
            total_bytes: total,
            speed,
            eta_seconds: eta,
            status: String::from_str("downloading"),
        },
    )
}

// --- legacy free-text format -----------------------------------------------
/// The line body once every leading "[download]" tag and whitespace is gone.
pub open spec fn dd_content(line: Seq<char>) -> Seq<char> {
    trim_spec(strip_prefix_all(line, "[download]"@))
}

/// Informational lines of the legacy format that carry no progress.
pub open spec fn dd_skip(content: Seq<char>) -> bool {
    match_at(content, "Destination:"@, 0) || match_at(content, "Resuming"@, 0) || contains_sub(
        content,
        "has already been downloaded"@,
    )
}

/// Percentage of a legacy progress line: the text before the first `%`.
pub open spec fn dd_pct(content: Seq<char>) -> u32 {
    pct_centi_spec(content.take(char_idx(content, '%')))
}

/// Speed of a legacy progress line: the text after " at ", cut at " ETA" or
/// at the next space; a placeholder when absent.
pub open spec fn dd_speed(content: Seq<char>) -> Seq<char> {
    let ap = sub_idx(content, " at "@);
    if ap == -1 {
        "--"@
    } else {
        let after = content.skip(ap + 4);
        let ep = sub_idx(after, " ETA"@);
        if ep != -1 {
            trim_spec(after.take(ep))
        } else {
            let sp = char_idx(after, ' ');
            if sp != -1 {
                trim_spec(after.take(sp))
            } else {
                trim_spec(after)
            }
        }
    }
}

/// ETA of a legacy progress line: the token after "ETA ".
pub open spec fn dd_eta(content: Seq<char>) -> Option<u64> {
    let ep = sub_idx(content, "ETA "@);
    if ep == -1 {
        None
    } else {
        eta_spec(first_token(content.skip(ep + 4)))
    }
}

/// Total bytes of a legacy progress line: the size after " of ", cut at
/// " at " or at the end of the token.
pub open spec fn dd_total(content: Seq<char>) -> Option<u64> {
    let op = sub_idx(content, " of "@);
    if op == -1 {
        None
    } else {
        let after = content.skip(op + 4);
        let ap = sub_idx(after, " at "@);
        let size = if ap != -1 {
            after.take(ap)
        } else {
            first_token(after)
        };
        parse_bytes_opt_spec(size)
    }
}

/// Downloaded bytes of a legacy progress line, computed from the percentage
/// of the total.
pub open spec fn dd_downloaded(content: Seq<char>) -> u64 {
    match dd_total(content) {
        Some(t) => ((dd_pct(content) as int) * (t as int) / 10000) as u64,
        None => 0u64,
    }
}

/// What parsing a legacy "[download]" line yields.
pub open spec fn dd_post(line: Seq<char>, r: ParsedLine) -> bool {
    let content = dd_content(line);
    if dd_skip(content) || char_idx(content, '%') == -1 {
        r == ParsedLine::Unknown
    } else {
        match r {
            ParsedLine::Progress(e) => {
                &&& e.percentage == dd_pct(content)
                &&& e.downloaded_bytes == dd_downloaded(content)
                &&& e.total_bytes == dd_total(content)
                &&& e.speed@ == dd_speed(content)
                &&& e.eta_seconds == dd_eta(content)
                &&& e.status@ == "downloading"@
                &&& e.wf()
            },
            _ => false,
        }
    }
}

/// Parse the legacy free-text format:
/// `[download]  45.2% of  52.3MiB at  2.5MiB/s ETA 00:12`.
fn parse_default_download_line(line: &str) -> (r: ParsedLine)
    ensures
        dd_post(line@, r),
{
    let stripped = strip_prefix_repeated(line, "[download]");
    let content = trim(stripped);
    proof {
        assert(content@ == dd_content(line@));
    }
    if starts_with(content, "Destination:") || starts_with(content, "Resuming") || contains_str(
        content,
        "has already been downloaded",
    ) {
        return ParsedLine::Unknown;
    }
    let n = content.unicode_len();
    let pct_end = match find_char(content, '%') {
        Some(i) => i,
        None => {
            return ParsedLine::Unknown;
        },
    };
    let pct_str = content.substring_char(0, pct_end);
    proof {
        assert(pct_str@ =~= content@.take(char_idx(content@, '%')));
    }
    let percentage = parse_percentage(pct_str);
    let speed: String = match find_sub_at(content, " at ") {
        Some(ap) => {
            proof {
                reveal_strlit(" at ");
            }
            let after = content.substring_char(ap + 4, n);
            proof {
                assert(after@ =~= content@.skip(sub_idx(content@, " at "@) + 4));
            }
            let am = after.unicode_len();
            match find_sub_at(after, " ETA") {
                Some(ep) => {
                    let cut = after.substring_char(0, ep);
                    proof {
                        assert(cut@ =~= after@.take(sub_idx(after@, " ETA"@)));
                    }
                    trim(cut).to_owned()
                },
                None => {
                    match find_char(after, ' ') {
                        Some(sp) => {
                            let cut = after.substring_char(0, sp);
                            proof {
                                assert(cut@ =~= after@.take(char_idx(after@, ' ')));
                            }
                            trim(cut).to_owned()
                        },
                        None => trim(after).to_owned(),
                    }
                },
            }
        },
        None => String::from_str("--"),
    };
    let eta_seconds: Option<u64> = match find_sub_at(content, "ETA ") {
        Some(ep) => {
            proof {
                reveal_strlit("ETA ");
            }
            let after = content.substring_char(ep + 4, n);
            proof {
                assert(after@ =~= content@.skip(sub_idx(content@, "ETA "@) + 4));
            }
            let tok = first_token_exec(after);
            parse_eta(tok)
        },
        None => None,
    };
    let total_bytes: Option<u64> = match find_sub_at(content, " of ") {
        Some(op) => {
            proof {
                reveal_strlit(" of ");
            }
            let after = content.substring_char(op + 4, n);
            proof {
                assert(after@ =~= content@.skip(sub_idx(content@, " of "@) + 4));
            }
            let am = after.unicode_len();
            let size_str: &str = match find_sub_at(after, " at ") {
                Some(ap2) => {
                    let cut = after.substring_char(0, ap2);
                    proof {
                        assert(cut@ =~= after@.take(sub_idx(after@, " at "@)));
                    }
                    cut
                },
                None => first_token_exec(after),
            };
            parse_bytes_raw_or_formatted_optional(size_str)
        },
        None => None,
    };
    let downloaded_bytes: u64 = match total_bytes {
        Some(t) => {
            proof {
                assert((percentage as int) * (t as int) <= 10000 * 0xffff_ffff_ffff_ffff)
                    by (nonlinear_arith)
                    requires
                        0 <= percentage <= 10000 && 0 <= t <= 0xffff_ffff_ffff_ffffu64,
                ;
            }
            let d: u128 = (percentage as u128) * (t as u128) / 10000;
            proof {
                assert(d <= t) by (nonlinear_arith)
                    requires
                        d as int == (percentage as int) * (t as int) / 10000 && 0 <= percentage
                            <= 10000 && t >= 0,
                ;
            }
            d as u64
        },
        None => 0,
    };
    ParsedLine::Progress(
        ProgressEvent {
            percentage,
            downloaded_bytes,
            total_bytes,
            speed,
            eta_seconds,
            status: String::from_str("downloading"),
        },
    )
}

// --- stdout entry point ------------------------------------------------------
/// A trimmed line is handled by the legacy parser when it bears the
/// "[download]" tag and a percent sign.
pub open spec fn cond_dd(t: Seq<char>) -> bool {
    match_at(t, "[download]"@, 0) && char_idx(t, '%') != -1
}

/// A trimmed line is handled as pipe-delimited when it has a pipe and does
/// not open a bracketed tag.
pub open spec fn cond_pipe(t: Seq<char>) -> bool {
    char_idx(t, '|') != -1 && !(t.len() > 0 && t[0] == '[')
}

/// A trimmed line under the "download:" prefix whose payload is
/// pipe-delimited.
pub open spec fn cond_dl_prefix(t: Seq<char>) -> bool {
    match_at(t, "download:"@, 0) && char_idx(t.skip(9), '|') != -1
}

/// What parsing one stdout line yields: merge markers win, then the two
/// progress formats in priority order, and everything else is `Unknown`.
pub open spec fn progress_line_post(line: Seq<char>, r: ParsedLine) -> bool {
    let t = trim_spec(line);
    if has_merge_marker(t) {
        r == ParsedLine::Merging
    } else if cond_dd(t) {
        dd_post(t, r)
    } else if cond_pipe(t) {
        pipe_post(t, r)
    } else if cond_dl_prefix(t) {
        pipe_post(t.skip(9), r)
    } else {
        r == ParsedLine::Unknown
    }
}

/// Parse a single stdout line of the external downloader.
pub fn parse_progress_line(line: &str) -> (r: ParsedLine)
    ensures
        progress_line_post(line@, r),
{
    let t = trim(line);
    if contains_str(t, "[Merger]") || contains_str(t, "Merging") || contains_str(t, "[ffmpeg]") {
        return ParsedLine::Merging;
    }
    let has_pct = match find_char(t, '%') {
        Some(_) => true,
        None => false,
    };
    if starts_with(t, "[download]") && has_pct {
        return parse_default_download_line(t);
    }
    let has_pipe = match find_char(t, '|') {
        Some(_) => true,
        None => false,
    };
    let n = t.unicode_len();
    let starts_bracket = n > 0 && t.get_char(0) == '[';
    if has_pipe && !starts_bracket {
        return parse_pipe_delimited_line(t);
    }
    if starts_with(t, "download:") {
        proof {
            reveal_strlit("download:");
        }
        let data = t.substring_char(9, n);
        proof {
            assert(data@ =~= t@.skip(9));
        }
        let data_has_pipe = match find_char(data, '|') {
            Some(_) => true,
            None => false,
        };
        if data_has_pipe {
            return parse_pipe_delimited_line(data);
        }
    }
    ParsedLine::Unknown
}

// ---------------------------------------------------------------------------
// Error-line classification
// ---------------------------------------------------------------------------
/// Category of a downloader error message.
#[derive(Debug, Clone, Copy, PartialEq, Eq, Structural)]
pub enum ErrorCategory {
    PrivateVideo,
    AgeRestricted,
    RegionLocked,
    NetworkError,
    NotFound,
    GenericError,
}

/// A categorized error parsed from one stderr line.
#[derive(Debug, Clone)]
pub struct ParsedError {
    pub category: ErrorCategory,
    pub message: String,
}

/// Markers of a private video.
pub open spec fn is_private_msg(m: Seq<char>) -> bool {
    contains_ci(m, "private video"@) || contains_ci(m, "video is private"@) || contains_ci(
        m,
        "this video is private"@,
    )
}

/// Markers of age-restricted content.
pub open spec fn is_age_msg(m: Seq<char>) -> bool {
    contains_ci(m, "age-restricted"@) || contains_ci(m, "age restricted"@) || contains_ci(
        m,
        "sign in to confirm your age"@,
    ) || contains_ci(m, "login required"@) || contains_ci(m, "sign in"@)
}

/// Markers of region-locked content.
pub open spec fn is_region_msg(m: Seq<char>) -> bool {
    contains_ci(m, "not available in your country"@) || contains_ci(m, "geo-restricted"@)
        || contains_ci(m, "geo restricted"@) || contains_ci(m, "blocked in your country"@)
        || contains_ci(m, "region"@)
}

/// Markers of a network failure.
pub open spec fn is_network_msg(m: Seq<char>) -> bool {
    contains_ci(m, "network"@) || contains_ci(m, "connection"@) || contains_ci(m, "timeout"@)
        || contains_ci(m, "timed out"@) || contains_ci(m, "unable to download"@) || contains_ci(
        m,
        "http error"@,
    ) || contains_ci(m, "urlopen error"@) || contains_ci(m, "ssl"@) || contains_ci(
        m,
        "certificate"@,
    )
}

/// Markers of missing content.
pub open spec fn is_not_found_msg(m: Seq<char>) -> bool {
    contains_ci(m, "video unavailable"@) || contains_ci(m, "not found"@) || contains_ci(
        m,
        "does not exist"@,
    ) || contains_ci(m, "has been removed"@) || contains_ci(m, "deleted"@) || contains_ci(
        m,
        "no video formats found"@,
    ) || contains_ci(m, "unsupported url"@)
}

/// Category of an error message, decided by the first marker family that
/// matches, in precedence order.
pub open spec fn category_spec(m: Seq<char>) -> ErrorCategory {
    if is_private_msg(m) {
        ErrorCategory::PrivateVideo
    } else if is_age_msg(m) {
        ErrorCategory::AgeRestricted
    } else if is_region_msg(m) {
        ErrorCategory::RegionLocked
    } else if is_network_msg(m) {
        ErrorCategory::NetworkError
    } else if is_not_found_msg(m) {
        ErrorCategory::NotFound
    } else {
        ErrorCategory::GenericError
    }
}

/// Categorize an error message by case-insensitive marker search.
pub fn categorize_error(msg: &str) -> (r: ErrorCategory)
    ensures
        r == category_spec(msg@),
{
    if contains_str_ci(msg, "private video") || contains_str_ci(msg, "video is private")
        || contains_str_ci(msg, "this video is private") {
        ErrorCategory::PrivateVideo
    } else if contains_str_ci(msg, "age-restricted") || contains_str_ci(msg, "age restricted")
        || contains_str_ci(msg, "sign in to confirm your age") || contains_str_ci(
        msg,
        "login required",
    ) || contains_str_ci(msg, "sign in") {
        ErrorCategory::AgeRestricted
    } else if contains_str_ci(msg, "not available in your country") || contains_str_ci(
        msg,
        "geo-restricted",
    ) || contains_str_ci(msg, "geo restricted") || contains_str_ci(msg, "blocked in your country")
        || contains_str_ci(msg, "region") {
        ErrorCategory::RegionLocked
    } else if contains_str_ci(msg, "network") || contains_str_ci(msg, "connection")
        || contains_str_ci(msg, "timeout") || contains_str_ci(msg, "timed out") || contains_str_ci(
        msg,
        "unable to download",
    ) || contains_str_ci(msg, "http error") || contains_str_ci(msg, "urlopen error")
        || contains_str_ci(msg, "ssl") || contains_str_ci(msg, "certificate") {
        ErrorCategory::NetworkError
    } else if contains_str_ci(msg, "video unavailable") || contains_str_ci(msg, "not found")
        || contains_str_ci(msg, "does not exist") || contains_str_ci(msg, "has been removed")
        || contains_str_ci(msg, "deleted") || contains_str_ci(msg, "no video formats found")
        || contains_str_ci(msg, "unsupported url") {
        ErrorCategory::NotFound
    } else {
        ErrorCategory::GenericError
    }
}

/// A message cut to a maximum length, with a trailing ellipsis when cut.
pub open spec fn truncate_spec(s: Seq<char>, max: int) -> Seq<char> {
    if s.len() <= max {
        s
    } else {
        s.take(max - 3).add(seq!['.', '.', '.'])
    }
}

/// Truncate a message, appending an ellipsis when it was cut.
pub fn truncate_message(msg: &str, max_len: usize) -> (r: String)
    requires
        max_len >= 3,
    ensures
        r@ == truncate_spec(msg@, max_len as int),
{
    let n = msg.unicode_len();
    if n <= max_len {
        msg.to_owned()
    } else {
        let cut = msg.substring_char(0, max_len - 3);
        let mut s = cut.to_owned();
        s.append("...");
        proof {
            reveal_strlit("...");
            assert("..."@ =~= seq!['.', '.', '.']);
            assert(s@ =~= truncate_spec(msg@, max_len as int));
        }
        s
    }
}

/// The user-facing message for a categorized error: a fixed reassuring text
/// for recognized categories, a truncated excerpt otherwise.
pub open spec fn friendly_spec(msg: Seq<char>, c: ErrorCategory) -> Seq<char> {
    match c {
        ErrorCategory::PrivateVideo => (
        "This video is private. You may need to sign in with browser cookies to access it."
        )@,
        ErrorCategory::AgeRestricted => (
        "This content is age-restricted. Try enabling browser cookie import in settings."
        )@,
        ErrorCategory::RegionLocked => ("This content is not available in your region.")@,
        ErrorCategory::NetworkError => ("Network error: ")@.add(truncate_spec(msg, 100)).add(
            (". Please check your internet connection and try again.")@,
        ),
        ErrorCategory::NotFound => (
        "Video not found. The URL may be invalid or the content may have been removed."
        )@,
        ErrorCategory::GenericError => truncate_spec(msg, 200),
    }
}

/// Build the user-facing message for an error.
pub fn create_user_friendly_message(original_msg: &str, category: &ErrorCategory) -> (r: String)
    ensures
        r@ == friendly_spec(original_msg@, *category),
{
    match category {
        ErrorCategory::PrivateVideo => String::from_str(
            "This video is private. You may need to sign in with browser cookies to access it.",
        ),
        ErrorCategory::AgeRestricted => String::from_str(
            "This content is age-restricted. Try enabling browser cookie import in settings.",
        ),
        ErrorCategory::RegionLocked => String::from_str(
            "This content is not available in your region.",
        ),
        ErrorCategory::NetworkError => {
            let mut s = String::from_str("Network error: ");
            let t = truncate_message(original_msg, 100);
            s.append(t.as_str());
            s.append(". Please check your internet connection and try again.");
            s
        },
        ErrorCategory::NotFound => String::from_str(
            "Video not found. The URL may be invalid or the content may have been removed.",
        ),
        ErrorCategory::GenericError => truncate_message(original_msg, 200),
    }
}

/// The raw message region of an error line: the text after the error marker,
/// cut before a second marker when the line does not begin with one.
pub open spec fn error_region(t: Seq<char>) -> Seq<char> {
    let i = sub_idx(t, "ERROR:"@);
    if i == 0 {
        trim_spec(t.skip(6))
    } else {
        let rest = t.skip(i + 6);
        let j = sub_idx(rest, "ERROR:"@);
        if j == -1 {
            trim_spec(rest)
        } else {
            trim_spec(rest.take(j))
        }
    }
}

/// What parsing one stderr line yields: lines without the error marker are
/// absent; marked lines give the category and user-facing message of the
/// text after the marker.
pub open spec fn error_line_post(line: Seq<char>, r: Option<ParsedError>) -> bool {
    let t = trim_spec(line);
    if t.len() == 0 || sub_idx(t, "ERROR:"@) == -1 {
        r is None
    } else {
        match r {
            Some(p) => {
                let m = error_region(t);
                p.category == category_spec(m) && p.message@ == friendly_spec(m, p.category)
            },
            None => false,
        }
    }
}

/// Parse one stderr line into a categorized error, when it carries the error
/// marker.
pub fn parse_error_line(line: &str) -> (r: Option<ParsedError>)
    ensures
        error_line_post(line@, r),
{
    let t = trim(line);
    if t.unicode_len() == 0 {
        return None;
    }
    let n = t.unicode_len();
    match find_sub_at(t, "ERROR:") {
        None => None,
        Some(i) => {
            proof {
                reveal_strlit("ERROR:");
            }
            let raw: &str = if i == 0 {
                let r0 = t.substring_char(6, n);
                proof {
                    assert(r0@ =~= t@.skip(6));
                }
                r0
            } else {
                let rest = t.substring_char(i + 6, n);
                proof {
                    assert(rest@ =~= t@.skip(sub_idx(t@, "ERROR:"@) + 6));
                }
                match find_sub_at(rest, "ERROR:") {
                    Some(j) => {
                        let cut = rest.substring_char(0, j);
                        proof {
                            assert(cut@ =~= rest@.take(sub_idx(rest@, "ERROR:"@)));
                        }
                        cut
                    },
                    None => rest,
                }
            };
            let msg = trim(raw);
            let category = categorize_error(msg);
            let message = create_user_friendly_message(msg, &category);
            Some(ParsedError { category, message })
        },
    }
}

// ---------------------------------------------------------------------------
// Laws
// ---------------------------------------------------------------------------
/// Law: whatever the input line, a progress event parsed from it has its
/// percentage within bounds, out-of-range inputs included.
pub proof fn lemma_progress_percentage_bounds(line: Seq<char>, r: ParsedLine)
    requires
        progress_line_post(line, r),
    ensures
        r matches ParsedLine::Progress(e) ==> e.percentage <= 10000,
{
}

/// Law: a line containing any of the three merge markers is classified as
/// `Merging`, regardless of the surrounding text.
pub proof fn lemma_merge_detection(line: Seq<char>, r: ParsedLine)
    requires
        progress_line_post(line, r),
        has_merge_marker(trim_spec(line)),
    ensures
        r == ParsedLine::Merging,
{
}

/// Law: a message carrying a private-video marker is categorized
/// `PrivateVideo`, whatever other markers (age restriction included) it also
/// carries.
pub proof fn lemma_private_video_precedence(m: Seq<char>)
    requires
        is_private_msg(m),
    ensures
        category_spec(m) == ErrorCategory::PrivateVideo,
{
}

/// Law: a non-empty error message always yields a non-empty user-facing
/// message, whatever its category.
pub proof fn lemma_error_message_nonempty(m: Seq<char>, c: ErrorCategory)
    requires
        m.len() > 0,
    ensures
        friendly_spec(m, c).len() > 0,
{
    reveal_strlit(
        "This video is private. You may need to sign in with browser cookies to access it.",
    );
    reveal_strlit(
        "This content is age-restricted. Try enabling browser cookie import in settings.",
    );
    reveal_strlit("This content is not available in your region.");
    reveal_strlit("Network error: ");
    reveal_strlit(". Please check your internet connection and try again.");
    reveal_strlit("Video not found. The URL may be invalid or the content may have been removed.");
}

/// Law (round trip): a non-negative count printed as decimal digits followed
/// by a binary unit parses back to exactly the count times the unit's
/// multiplier.
pub proof fn lemma_byte_size_round_trip(n: u64, unit: Seq<char>)
    requires
        unit == "B"@ || unit == "KiB"@ || unit == "MiB"@ || unit == "GiB"@,
        n * unit_mult(unit) <= u64::MAX,
    ensures
        parse_bytes_opt_spec(dec_str(n as int).add(unit)) == Some((n * unit_mult(unit)) as u64),
{
    reveal_strlit("B");
    reveal_strlit("KiB");
    reveal_strlit("MiB");
    reveal_strlit("GiB");
    reveal_strlit("b");
    reveal_strlit("kib");
    reveal_strlit("kb");
    reveal_strlit("k");
    reveal_strlit("mib");
    reveal_strlit("mb");
    reveal_strlit("m");
    reveal_strlit("gib");
    reveal_strlit("gb");
    reveal_strlit("g");
    reveal_strlit("tib");
    reveal_strlit("tb");
    reveal_strlit("t");
    reveal_strlit("n/a");
    reveal_strlit("na");
    reveal_strlit("unknown");
    reveal_strlit("none");
    crate::text::lemma_dec_str_digits(n as int);
    let digits = dec_str(n as int);
    let t = digits.add(unit);
    let dl = digits.len() as int;
    assert forall|k: int| 0 <= k < t.len() implies !crate::text::is_ws(t[k]) by {
        if k < dl {
            assert(t[k] == digits[k]);
            assert(is_digit(t[k]));
        } else {
            assert(t[k] == unit[k - dl]);
        }
    }
    crate::text::lemma_trim_id(t);
    assert(trim_spec(t) == t);
    // The token is not an unknown-value marker: it opens with a digit.
    assert(t[0] == digits[0] && is_digit(t[0]));
    assert(!is_absent_token(t)) by {
        if eq_ci(t, "n/a"@) {
            assert(crate::text::lc(t[0]) == crate::text::lc("n/a"@[0]));
        }
        if eq_ci(t, "na"@) {
            assert(crate::text::lc(t[0]) == crate::text::lc("na"@[0]));
        }
        if eq_ci(t, "unknown"@) {
            assert(crate::text::lc(t[0]) == crate::text::lc("unknown"@[0]));
        }
        if eq_ci(t, "none"@) {
            assert(crate::text::lc(t[0]) == crate::text::lc("none"@[0]));
        }
    }
    // Not a raw integer: the unit's first letter is not a digit.
    assert(t[dl] == unit[0]);
    assert(parse_u64_spec(t) is None) by {
        assert(!is_digit(unit[0]));
        assert(t[0] != '+');
        assert(!all_digits(t));
    }
    // Not a plain decimal either, for the same reason.
    assert(char_idx(t, '.') == -1) by {
        assert forall|k: int| 0 <= k < t.len() implies t[k] != '.' by {
            if k < dl {
                assert(is_digit(t[k]));
            } else {
                assert(t[k] == unit[k - dl]);
            }
        }
        crate::text::lemma_char_idx_unique(t, '.', -1);
    }
    assert(dec_body(t) == t);
    assert(dec_int_part(t) == t);
    assert(!dec_valid(t)) by {
        assert(!all_digits(t));
    }
    // The numeric prefix is exactly the digit run.
    assert(num_prefix_len(t) == dl) by {
        assert forall|k: int| 0 <= k < dl implies is_num_char(t[k]) by {
            assert(t[k] == digits[k]);
        }
        assert(!is_num_char(t[dl]));
        lemma_num_prefix_unique(t, dl);
    }
    let nums = t.take(dl);
    let unit_part = t.skip(dl);
    assert(nums =~= digits);
    assert(unit_part =~= unit);
    // The digit run is a valid decimal with no fraction.
    assert(char_idx(nums, '.') == -1) by {
        assert forall|k: int| 0 <= k < nums.len() implies nums[k] != '.' by {
            assert(is_digit(nums[k]));
        }
        crate::text::lemma_char_idx_unique(nums, '.', -1);
    }
    assert(dec_body(nums) == nums);
    assert(dec_int_part(nums) == nums);
    assert(dec_frac_part(nums) == Seq::<char>::empty());
    assert(dec_valid(nums));
    assert(!dec_negative(nums));
    // Scale: no fraction, so the value is the digit value times the unit.
    let m = unit_mult(unit);
    assert(frac_scaled(Seq::<char>::empty(), m) == 0) by {
        assert(Seq::<char>::empty().take(0) =~= Seq::<char>::empty());
        assert(digits_val(Seq::<char>::empty()) == 0);
        assert(pow10(0) == 1);
    }
    assert(digits_val(nums) == n);
    assert(dec_scaled_u64(nums, m) == (n * m) as u64);
}

} // verus!
