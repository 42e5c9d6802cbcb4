//! Verified text utilities: substring search, case-insensitive matching,
//! trimming, splitting, and decimal digit handling over `&str` views.

use vstd::prelude::*;

verus! {

use vstd::string::StrSliceExecFns;

/// ASCII whitespace, as trimmed from downloader output lines.
pub open spec fn is_ws(c: char) -> bool {
    c == ' ' || c == '\t' || c == '\n' || c == '\r'
}

/// Lower-cased code point of an ASCII letter; other characters unchanged.
pub open spec fn lc(c: char) -> u32 {
    if 65 <= c as u32 && c as u32 <= 90 {
        (c as u32 + 32) as u32
    } else {
        c as u32
    }
}

/// The needle occurs in the haystack starting at index `i`.
pub open spec fn match_at(hay: Seq<char>, needle: Seq<char>, i: int) -> bool {
    0 <= i && i + needle.len() <= hay.len() && hay.subrange(i, i + needle.len()) == needle
}

/// The haystack has the needle as a contiguous subsequence.
pub open spec fn contains_sub(hay: Seq<char>, needle: Seq<char>) -> bool {
    exists|i: int| match_at(hay, needle, i)
}

/// Case-insensitive (ASCII) match of the needle at index `i`.
pub open spec fn match_at_ci(hay: Seq<char>, needle: Seq<char>, i: int) -> bool {
    0 <= i && i + needle.len() <= hay.len() && forall|k: int|
        0 <= k < needle.len() ==> lc(hay[i + k]) == lc(needle[k])
}

/// Case-insensitive (ASCII) containment.
pub open spec fn contains_ci(hay: Seq<char>, needle: Seq<char>) -> bool {
    exists|i: int| match_at_ci(hay, needle, i)
}

/// Case-insensitive (ASCII) equality of two character sequences.
pub open spec fn eq_ci(a: Seq<char>, b: Seq<char>) -> bool {
    a.len() == b.len() && forall|k: int| 0 <= k < a.len() ==> lc(a[k]) == lc(b[k])
}

/// Number of leading whitespace characters.
pub open spec fn ws_prefix_len(s: Seq<char>) -> int
    decreases s.len(),
{
    if s.len() == 0 {
        0
    } else if is_ws(s[0]) {
        1 + ws_prefix_len(s.subrange(1, s.len() as int))
    } else {
        0
    }
}

/// Number of trailing whitespace characters.
pub open spec fn ws_suffix_len(s: Seq<char>) -> int
    decreases s.len(),
{
    if s.len() == 0 {
        0
    } else if is_ws(s[s.len() - 1]) {
        1 + ws_suffix_len(s.subrange(0, s.len() - 1))
    } else {
        0
    }
}

/// The sequence with leading and trailing whitespace removed.
pub open spec fn trim_spec(s: Seq<char>) -> Seq<char> {
    let a = ws_prefix_len(s);
    if a == s.len() {
        Seq::empty()
    } else {
        s.subrange(a, s.len() - ws_suffix_len(s))
    }
}

proof fn lemma_ws_prefix_unique(s: Seq<char>, p: int)
    requires
        0 <= p <= s.len(),
        forall|k: int| 0 <= k < p ==> is_ws(s[k]),
        p < s.len() ==> !is_ws(s[p]),
    ensures
        ws_prefix_len(s) == p,
    decreases s.len(),
{
    if s.len() == 0 {
    } else if is_ws(s[0]) {
        assert(p >= 1) by {
            if p == 0 {
                assert(!is_ws(s[0]));
            }
        }
        let t = s.subrange(1, s.len() as int);
        assert forall|k: int| 0 <= k < p - 1 implies is_ws(t[k]) by {
            assert(t[k] == s[k + 1]);
        }
        if p - 1 < t.len() {
            assert(t[p - 1] == s[p]);
        }
        lemma_ws_prefix_unique(t, p - 1);
    } else {
        assert(p == 0) by {
            if p > 0 {
                assert(is_ws(s[0]));
            }
        }
    }
}

proof fn lemma_ws_suffix_unique(s: Seq<char>, q: int)
    requires
        0 <= q <= s.len(),
        forall|k: int| s.len() - q <= k < s.len() ==> is_ws(s[k]),
        q < s.len() ==> !is_ws(s[s.len() - q - 1]),
    ensures
        ws_suffix_len(s) == q,
    decreases s.len(),
{
    if s.len() == 0 {
    } else if is_ws(s[s.len() - 1]) {
        assert(q >= 1) by {
            if q == 0 {
                assert(!is_ws(s[s.len() - 1]));
            }
        }
        let t = s.subrange(0, s.len() - 1);
        assert forall|k: int| t.len() - (q - 1) <= k < t.len() implies is_ws(t[k]) by {
            assert(t[k] == s[k]);
        }
        if q - 1 < t.len() {
            assert(t[t.len() - (q - 1) - 1] == s[s.len() - q - 1]);
        }
        lemma_ws_suffix_unique(t, q - 1);
    } else {
        assert(q == 0) by {
            if q > 0 {
                assert(is_ws(s[s.len() - 1]));
            }
        }
    }
}

/// Test whether a character is ASCII whitespace.
pub fn is_ws_char(c: char) -> (r: bool)
    ensures
        r == is_ws(c),
{
    c == ' ' || c == '\t' || c == '\n' || c == '\r'
}

/// Trim ASCII whitespace from both ends.
pub fn trim(s: &str) -> (r: &str)
    ensures
        r@ == trim_spec(s@),
{
    let n = s.unicode_len();
    let mut a: usize = 0;
    while a < n && is_ws_char(s.get_char(a))
        invariant
            0 <= a <= n,
            n == s@.len(),
            forall|k: int| 0 <= k < a ==> is_ws(s@[k]),
        decreases n - a,
    {
        a = a + 1;
    }
    proof {
        lemma_ws_prefix_unique(s@, a as int);
    }
    if a == n {
        let r = s.substring_char(n, n);
        proof {
            assert(r@ =~= trim_spec(s@));
        }
        return r;
    }
    let mut b: usize = n;
    while b > a && is_ws_char(s.get_char(b - 1))
        invariant
            a <= b <= n,
            n == s@.len(),
            forall|k: int| b <= k < n ==> is_ws(s@[k]),
        decreases b,
    {
        b = b - 1;
    }
    proof {
        assert(!is_ws(s@[a as int]));
        assert(b > a) by {
            if b == a {
                assert(is_ws(s@[a as int]));
            }
        }
        assert(!is_ws(s@[b - 1]));
        lemma_ws_suffix_unique(s@, n - b);
    }
    let r = s.substring_char(a, b);
    proof {
        assert(r@ =~= trim_spec(s@));
    }
    r
}

/// Character-by-character string equality.
pub fn str_eq(a: &str, b: &str) -> (r: bool)
    ensures
        r == (a@ == b@),
{
    let na = a.unicode_len();
    let nb = b.unicode_len();
    if na != nb {
        proof {
            assert(a@ != b@);
        }
        return false;
    }
    let mut i: usize = 0;
    while i < na
        invariant
            0 <= i <= na,
            na == a@.len(),
            na == b@.len(),
            forall|k: int| 0 <= k < i ==> a@[k] == b@[k],
        decreases na - i,
    {
        if a.get_char(i) != b.get_char(i) {
            proof {
                assert(a@[i as int] != b@[i as int]);
            }
            return false;
        }
        i = i + 1;
    }
    proof {
        assert(a@ =~= b@);
    }
    true
}

/// Case-insensitive (ASCII) string equality.
pub fn str_eq_ci(a: &str, b: &str) -> (r: bool)
    ensures
        r == eq_ci(a@, b@),
{
    let na = a.unicode_len();
    let nb = b.unicode_len();
    if na != nb {
        return false;
    }
    let mut i: usize = 0;
    while i < na
        invariant
            0 <= i <= na,
            na == a@.len(),
            na == b@.len(),
            forall|k: int| 0 <= k < i ==> lc(a@[k]) == lc(b@[k]),
        decreases na - i,
    {
        if lc_exec(a.get_char(i)) != lc_exec(b.get_char(i)) {
            return false;
        }
        i = i + 1;
    }
    true
}

/// Lower-cased code point, executable form.
pub fn lc_exec(c: char) -> (r: u32)
    ensures
        r == lc(c),
{
    let u = c as u32;
    if 65 <= u && u <= 90 {
        u + 32
    } else {
        u
    }
}

/// Whether the needle matches the haystack at position `i` (case-sensitive).
pub fn matches_at(hay: &str, needle: &str, i: usize) -> (r: bool)
    requires
        i + needle@.len() <= hay@.len(),
    ensures
        r == match_at(hay@, needle@, i as int),
{
    let n = hay.unicode_len();
    let m = needle.unicode_len();
    let mut k: usize = 0;
    while k < m
        invariant
            0 <= k <= m,
            m == needle@.len(),
            n == hay@.len(),
            i + m <= n,
            forall|j: int| 0 <= j < k ==> hay@[i + j] == needle@[j],
        decreases m - k,
    {
        if hay.get_char(i + k) != needle.get_char(k) {
            proof {
                assert(hay@[i + k] != needle@[k as int]);
                assert(hay@.subrange(i as int, i + m)[k as int] == hay@[i + k]);
            }
            return false;
        }
        k = k + 1;
    }
    proof {
        assert(hay@.subrange(i as int, i + m) =~= needle@);
    }
    true
}

/// Find the first occurrence of the needle.
pub fn find_sub(hay: &str, needle: &str) -> (r: Option<usize>)
    ensures
        match r {
            Some(i) => match_at(hay@, needle@, i as int) && forall|j: int|
                0 <= j < i ==> !match_at(hay@, needle@, j),
            None => !contains_sub(hay@, needle@),
        },
{
    let n = hay.unicode_len();
    let m = needle.unicode_len();
    if m > n {
        proof {
            assert forall|i: int| !match_at(hay@, needle@, i) by {}
        }
        return None;
    }
    if m == 0 {
        proof {
            assert(hay@.subrange(0, 0) =~= needle@);
        }
        return Some(0);
    }
    let mut i: usize = 0;
    while i <= n - m
        invariant
            0 <= i <= n - m + 1,
            1 <= m <= n,
            n == hay@.len(),
            m == needle@.len(),
            forall|j: int| 0 <= j < i ==> !match_at(hay@, needle@, j),
        decreases n - m - i + 1,
    {
        if matches_at(hay, needle, i) {
            return Some(i);
        }
        i = i + 1;
    }
    proof {
        assert forall|j: int| !match_at(hay@, needle@, j) by {
            if 0 <= j && j + needle@.len() <= hay@.len() {
                assert(j < i);
            }
        }
    }
    None
}

/// Test containment of a needle (case-sensitive).
pub fn contains_str(hay: &str, needle: &str) -> (r: bool)
    ensures
        r == contains_sub(hay@, needle@),
{
    match find_sub(hay, needle) {
        Some(_) => true,
        None => false,
    }
}

/// Test case-insensitive (ASCII) containment of a needle.
pub fn contains_str_ci(hay: &str, needle: &str) -> (r: bool)
    ensures
        r == contains_ci(hay@, needle@),
{
    let n = hay.unicode_len();
    let m = needle.unicode_len();
    if m > n {
        proof {
            assert forall|i: int| !match_at_ci(hay@, needle@, i) by {}
        }
        return false;
    }
    if m == 0 {
        proof {
            assert(match_at_ci(hay@, needle@, 0));
        }
        return true;
    }
    let mut i: usize = 0;
    while i <= n - m
        invariant
            0 <= i <= n - m + 1,
            1 <= m <= n,
            n == hay@.len(),
            m == needle@.len(),
            forall|j: int| 0 <= j < i ==> !match_at_ci(hay@, needle@, j),
        decreases n - m - i + 1,
    {
        let mut k: usize = 0;
        let mut ok = true;
        while k < m && ok
            invariant
                0 <= k <= m,
                i + m <= n,
                n == hay@.len(),
                m == needle@.len(),
                ok ==> forall|j: int| 0 <= j < k ==> lc(hay@[i + j]) == lc(needle@[j]),
                !ok ==> !match_at_ci(hay@, needle@, i as int),
            decreases m - k + (if ok { 1int } else { 0int }),
        {
            if lc_exec(hay.get_char(i + k)) != lc_exec(needle.get_char(k)) {
                ok = false;
            } else {
                k = k + 1;
            }
        }
        if ok {
            proof {
                assert(match_at_ci(hay@, needle@, i as int));
            }
            return true;
        }
        i = i + 1;
    }
    proof {
        assert forall|j: int| !match_at_ci(hay@, needle@, j) by {
            if 0 <= j && j + needle@.len() <= hay@.len() {
                assert(j < i);
            }
        }
    }
    false
}

/// Whether the string starts with the given prefix.
pub fn starts_with(s: &str, prefix: &str) -> (r: bool)
    ensures
        r == match_at(s@, prefix@, 0),
{
    if prefix.unicode_len() > s.unicode_len() {
        return false;
    }
    matches_at(s, prefix, 0)
}

/// Decimal digit.
pub open spec fn is_digit(c: char) -> bool {
    48 <= c as u32 && c as u32 <= 57
}

/// Numeric value of a decimal digit (0 for non-digits).
pub open spec fn digit_val(c: char) -> nat {
    if is_digit(c) {
        (c as u32 - 48) as nat
    } else {
        0
    }
}

/// All characters are decimal digits.
pub open spec fn all_digits(s: Seq<char>) -> bool {
    forall|k: int| 0 <= k < s.len() ==> is_digit(s[k])
}

/// Value of a decimal digit string.
pub open spec fn digits_val(s: Seq<char>) -> nat
    decreases s.len(),
{
    if s.len() == 0 {
        0
    } else {
        digits_val(s.drop_last()) * 10 + digit_val(s.last())
    }
}

/// Extending a digit prefix by one position multiplies by ten and adds it.
pub proof fn lemma_digits_val_take_step(s: Seq<char>, i: int)
    requires
        0 <= i < s.len(),
    ensures
        digits_val(s.take(i + 1)) == digits_val(s.take(i)) * 10 + digit_val(s[i]),
{
    assert(s.take(i + 1).drop_last() =~= s.take(i));
    assert(s.take(i + 1).last() == s[i]);
}

/// The value of a digit-string prefix never exceeds the value of a longer one.
pub proof fn lemma_digits_val_monotone(s: Seq<char>, i: int, j: int)
    requires
        0 <= i <= j <= s.len(),
    ensures
        digits_val(s.take(i)) <= digits_val(s.take(j)),
    decreases j - i,
{
    if i < j {
        lemma_digits_val_take_step(s, j - 1);
        lemma_digits_val_monotone(s, i, j - 1);
    }
}

/// Value of a whole decimal digit string, as `u64` when in range.
pub open spec fn digits_u64(s: Seq<char>) -> Option<u64> {
    if s.len() > 0 && all_digits(s) && digits_val(s) <= u64::MAX {
        Some(digits_val(s) as u64)
    } else {
        None
    }
}

/// Parse a non-empty all-digit string into a `u64`; `None` on any other
/// input, including overflow.
pub fn parse_digits_u64(s: &str) -> (r: Option<u64>)
    ensures
        r == digits_u64(s@),
{
    let n = s.unicode_len();
    if n == 0 {
        return None;
    }
    let mut acc: u128 = 0;
    let mut i: usize = 0;
    while i < n
        invariant
            0 <= i <= n,
            n == s@.len(),
            all_digits(s@.take(i as int)),
            acc == digits_val(s@.take(i as int)),
            acc <= u64::MAX as u128,
        decreases n - i,
    {
        let c = s.get_char(i);
        let u = c as u32;
        if u < 48 || u > 57 {
            proof {
                assert(!is_digit(s@[i as int]));
            }
            return None;
        }
        proof {
            lemma_digits_val_take_step(s@, i as int);
        }
        acc = acc * 10 + ((u - 48) as u128);
        if acc > u64::MAX as u128 {
            proof {
                lemma_digits_val_monotone(s@, i + 1, n as int);
                assert(s@.take(n as int) =~= s@);
            }
            return None;
        }
        i = i + 1;
    }
    proof {
        assert(s@.take(n as int) =~= s@);
    }
    Some(acc as u64)
}

/// What Rust's `u64` parser accepts: an optional leading `+`, then digits.
pub open spec fn parse_u64_spec(s: Seq<char>) -> Option<u64> {
    if s.len() > 0 && s[0] == '+' {
        digits_u64(s.skip(1))
    } else {
        digits_u64(s)
    }
}

/// Parse a `u64` with an optional leading `+` sign.
pub fn parse_u64(s: &str) -> (r: Option<u64>)
    ensures
        r == parse_u64_spec(s@),
{
    let n = s.unicode_len();
    if n > 0 && s.get_char(0) == '+' {
        let rest = s.substring_char(1, n);
        proof {
            assert(rest@ =~= s@.skip(1));
        }
        parse_digits_u64(rest)
    } else {
        parse_digits_u64(s)
    }
}

/// The character for a decimal digit value.
pub open spec fn digit_char(d: int) -> char {
    if d == 0 {
        '0'
    } else if d == 1 {
        '1'
    } else if d == 2 {
        '2'
    } else if d == 3 {
        '3'
    } else if d == 4 {
        '4'
    } else if d == 5 {
        '5'
    } else if d == 6 {
        '6'
    } else if d == 7 {
        '7'
    } else if d == 8 {
        '8'
    } else {
        '9'
    }
}

/// Decimal representation of a non-negative integer, most significant digit
/// first.
pub open spec fn dec_str(n: int) -> Seq<char>
    decreases n,
{
    if n < 0 {
        Seq::empty()
    } else if n < 10 {
        seq![digit_char(n)]
    } else {
        dec_str(n / 10).push(digit_char(n % 10))
    }
}

fn digit_char_exec(d: u64) -> (c: char)
    requires
        d < 10,
    ensures
        c == digit_char(d as int),
{
    if d == 0 {
        '0'
    } else if d == 1 {
        '1'
    } else if d == 2 {
        '2'
    } else if d == 3 {
        '3'
    } else if d == 4 {
        '4'
    } else if d == 5 {
        '5'
    } else if d == 6 {
        '6'
    } else if d == 7 {
        '7'
    } else if d == 8 {
        '8'
    } else {
        '9'
    }
}

/// Relies on `String::push`: appends exactly the given character.
#[verifier::external_body]
pub fn string_push(s: &mut String, c: char)
    ensures
        final(s)@ == old(s)@.push(c),
{
    s.push(c);
}

/// Render a `u64` in decimal.
pub fn u64_to_string(n: u64) -> (r: String)
    ensures
        r@ == dec_str(n as int),
    decreases n,
{
    if n < 10 {
        let mut s = String::new();
        string_push(&mut s, digit_char_exec(n));
        proof {
            assert(s@ =~= dec_str(n as int));
        }
        s
    } else {
        let mut s = u64_to_string(n / 10);
        string_push(&mut s, digit_char_exec(n % 10));
        s
    }
}

/// Split on a separator character. The result always has at least one piece;
/// pieces carry no separator and joining them with the separator restores the
/// input.
pub open spec fn split_spec(s: Seq<char>, sep: char) -> Seq<Seq<char>>
    decreases s.len(),
{
    if s.len() == 0 {
        seq![Seq::<char>::empty()]
    } else if s[0] == sep {
        seq![Seq::<char>::empty()].add(split_spec(s.skip(1), sep))
    } else {
        let r = split_spec(s.skip(1), sep);
        seq![seq![s[0]].add(r[0])].add(r.skip(1))
    }
}

/// A split always produces at least one piece.
pub proof fn lemma_split_len(s: Seq<char>, sep: char)
    ensures
        split_spec(s, sep).len() >= 1,
    decreases s.len(),
{
    if s.len() > 0 {
        lemma_split_len(s.skip(1), sep);
    }
}

/// The views of a vector of strings.
pub open spec fn views_of(v: Seq<String>) -> Seq<Seq<char>> {
    v.map_values(|p: String| p@)
}

/// Split a string on a separator character.
pub fn split_char(s: &str, sep: char) -> (r: Vec<String>)
    ensures
        views_of(r@) == split_spec(s@, sep),
        r@.len() >= 1,
    decreases s@.len(),
{
    let n = s.unicode_len();
    if n == 0 {
        let mut v: Vec<String> = Vec::new();
        v.push(String::new());
        proof {
            assert(views_of(v@) =~= split_spec(s@, sep));
        }
        return v;
    }
    let c0 = s.get_char(0);
    let rest = s.substring_char(1, n);
    proof {
        assert(rest@ =~= s@.skip(1));
    }
    let mut r = split_char(rest, sep);
    if c0 == sep {
        r.insert(0, String::new());
        proof {
            assert(views_of(r@) =~= split_spec(s@, sep));
        }
        r
    } else {
        let ghost pre = r@;
        let old0 = r.remove(0);
        let mut first = String::new();
        string_push(&mut first, c0);
        first.append(old0.as_str());
        proof {
            assert(first@ =~= seq![s@[0]].add(views_of(pre)[0]));
        }
        r.insert(0, first);
        proof {
            assert(views_of(r@) =~= split_spec(s@, sep));
        }
        r
    }
}

/// A string without whitespace is unchanged by trimming.
pub proof fn lemma_trim_id(s: Seq<char>)
    requires
        forall|k: int| 0 <= k < s.len() ==> !is_ws(s[k]),
    ensures
        trim_spec(s) == s,
{
    lemma_ws_prefix_unique(s, 0);
    if s.len() > 0 {
        lemma_ws_suffix_unique(s, 0);
    }
    assert(trim_spec(s) =~= s);
}

/// The decimal representation of a non-negative integer consists of digits
/// and evaluates back to the integer.
pub proof fn lemma_dec_str_digits(n: int)
    requires
        n >= 0,
    ensures
        dec_str(n).len() >= 1,
        all_digits(dec_str(n)),
        digits_val(dec_str(n)) == n,
    decreases n,
{
    if n < 10 {
        assert(dec_str(n) == seq![digit_char(n)]);
        assert(dec_str(n).drop_last() =~= Seq::<char>::empty());
        assert(dec_str(n).last() == digit_char(n));
        assert(digits_val(Seq::<char>::empty()) == 0);
        assert(digits_val(dec_str(n)) == digit_val(digit_char(n)));
        assert(digit_val(digit_char(n)) == n);
    } else {
        lemma_dec_str_digits(n / 10);
        let pre = dec_str(n / 10);
        let d = digit_char(n % 10);
        assert(dec_str(n).drop_last() =~= pre);
        assert(dec_str(n).last() == d);
        assert forall|k: int| 0 <= k < dec_str(n).len() implies is_digit(dec_str(n)[k]) by {
            if k < pre.len() {
                assert(dec_str(n)[k] == pre[k]);
            }
        }
        assert(digits_val(dec_str(n)) == digits_val(pre) * 10 + digit_val(d));
    }
}

/// Index of the first occurrence of a character, or -1 when absent.
pub open spec fn char_idx(s: Seq<char>, c: char) -> int
    decreases s.len(),
{
    if s.len() == 0 {
        -1
    } else if s[0] == c {
        0
    } else if char_idx(s.skip(1), c) == -1 {
        -1
    } else {
        1 + char_idx(s.skip(1), c)
    }
}

/// Characterization of `char_idx`.
pub proof fn lemma_char_idx_unique(s: Seq<char>, c: char, p: int)
    requires
        p == -1 ==> forall|k: int| 0 <= k < s.len() ==> s[k] != c,
        p >= 0 ==> 0 <= p < s.len() && s[p] == c && forall|k: int| 0 <= k < p ==> s[k] != c,
        p >= -1,
    ensures
        char_idx(s, c) == p,
    decreases s.len(),
{
    if s.len() == 0 {
    } else if s[0] == c {
        assert(p == 0) by {
            if p == -1 {
                assert(s[0] != c);
            }
        }
    } else {
        let t = s.skip(1);
        if p == -1 {
            assert forall|k: int| 0 <= k < t.len() implies t[k] != c by {
                assert(t[k] == s[k + 1]);
            }
            lemma_char_idx_unique(t, c, -1);
        } else {
            assert(p >= 1) by {
                if p == 0 {
                    assert(s[0] == c);
                }
            }
            assert(t[p - 1] == s[p]);
            assert forall|k: int| 0 <= k < p - 1 implies t[k] != c by {
                assert(t[k] == s[k + 1]);
            }
            lemma_char_idx_unique(t, c, p - 1);
        }
    }
}

/// Find the first occurrence of a character.
pub fn find_char(s: &str, c: char) -> (r: Option<usize>)
    ensures
        match r {
            Some(i) => char_idx(s@, c) == i as int && i < s@.len() && s@[i as int] == c && forall|
                k: int,
            | 0 <= k < i ==> s@[k] != c,
            None => char_idx(s@, c) == -1 && forall|k: int| 0 <= k < s@.len() ==> s@[k] != c,
        },
{
    let n = s.unicode_len();
    let mut i: usize = 0;
    while i < n
        invariant
            0 <= i <= n,
            n == s@.len(),
            forall|k: int| 0 <= k < i ==> s@[k] != c,
        decreases n - i,
    {
        if s.get_char(i) == c {
            proof {
                lemma_char_idx_unique(s@, c, i as int);
            }
            return Some(i);
        }
        i = i + 1;
    }
    proof {
        lemma_char_idx_unique(s@, c, -1);
    }
    None
}

/// Index of the first occurrence of a substring, or -1 when absent.
pub open spec fn sub_idx(hay: Seq<char>, needle: Seq<char>) -> int
    decreases hay.len(),
{
    if match_at(hay, needle, 0) {
        0
    } else if hay.len() == 0 {
        -1
    } else if sub_idx(hay.skip(1), needle) == -1 {
        -1
    } else {
        1 + sub_idx(hay.skip(1), needle)
    }
}

proof fn lemma_match_at_skip(hay: Seq<char>, needle: Seq<char>, j: int)
    requires
        hay.len() > 0,
        0 <= j,
    ensures
        match_at(hay.skip(1), needle, j) == match_at(hay, needle, j + 1),
{
    if j + needle.len() <= hay.len() - 1 {
        assert(hay.skip(1).subrange(j, j + needle.len() as int) =~= hay.subrange(
            j + 1,
            j + 1 + needle.len() as int,
        ));
    }
}

/// Characterization of `sub_idx`.
pub proof fn lemma_sub_idx_unique(hay: Seq<char>, needle: Seq<char>, p: int)
    requires
        p == -1 ==> forall|j: int| !match_at(hay, needle, j),
        p >= 0 ==> match_at(hay, needle, p) && forall|j: int| 0 <= j < p ==> !match_at(
            hay,
            needle,
            j,
        ),
        p >= -1,
    ensures
        sub_idx(hay, needle) == p,
    decreases hay.len(),
{
    if match_at(hay, needle, 0) {
        assert(p == 0) by {
            if p == -1 {
                assert(!match_at(hay, needle, 0));
            }
        }
    } else if hay.len() == 0 {
        assert(p != 0);
        if p > 0 {
            assert(match_at(hay, needle, p));
            assert(false);
        }
    } else {
        let t = hay.skip(1);
        if p == -1 {
            assert forall|j: int| !match_at(t, needle, j) by {
                if 0 <= j {
                    lemma_match_at_skip(hay, needle, j);
                    assert(!match_at(hay, needle, j + 1));
                }
            }
            lemma_sub_idx_unique(t, needle, -1);
        } else {
            assert(p >= 1);
            lemma_match_at_skip(hay, needle, p - 1);
            assert(match_at(t, needle, p - 1));
            assert forall|j: int| 0 <= j < p - 1 implies !match_at(t, needle, j) by {
                lemma_match_at_skip(hay, needle, j);
                assert(!match_at(hay, needle, j + 1));
            }
            lemma_sub_idx_unique(t, needle, p - 1);
        }
    }
}

/// Find the first occurrence of a substring, located by `sub_idx`.
pub fn find_sub_at(hay: &str, needle: &str) -> (r: Option<usize>)
    ensures
        match r {
            Some(i) => sub_idx(hay@, needle@) == i as int && i + needle@.len() <= hay@.len(),
            None => sub_idx(hay@, needle@) == -1 && !contains_sub(hay@, needle@),
        },
{
    let r = find_sub(hay, needle);
    proof {
        match r {
            Some(i) => lemma_sub_idx_unique(hay@, needle@, i as int),
            None => lemma_sub_idx_unique(hay@, needle@, -1),
        }
    }
    r
}

/// Number of trailing occurrences of a character.
pub open spec fn char_suffix_len(s: Seq<char>, c: char) -> int
    decreases s.len(),
{
    if s.len() == 0 {
        0
    } else if s[s.len() - 1] == c {
        1 + char_suffix_len(s.subrange(0, s.len() - 1), c)
    } else {
        0
    }
}

proof fn lemma_char_suffix_unique(s: Seq<char>, c: char, q: int)
    requires
        0 <= q <= s.len(),
        forall|k: int| s.len() - q <= k < s.len() ==> s[k] == c,
        q < s.len() ==> s[s.len() - q - 1] != c,
    ensures
        char_suffix_len(s, c) == q,
    decreases s.len(),
{
    if s.len() == 0 {
    } else if s[s.len() - 1] == c {
        assert(q >= 1) by {
            if q == 0 {
                assert(s[s.len() - 1] != c);
            }
        }
        let t = s.subrange(0, s.len() - 1);
        assert forall|k: int| t.len() - (q - 1) <= k < t.len() implies t[k] == c by {
            assert(t[k] == s[k]);
        }
        if q - 1 < t.len() {
            assert(t[t.len() - (q - 1) - 1] == s[s.len() - q - 1]);
        }
        lemma_char_suffix_unique(t, c, q - 1);
    } else {
        assert(q == 0) by {
            if q > 0 {
                assert(s[s.len() - 1] == c);
            }
        }
    }
}

/// Strip every trailing occurrence of a character.
pub fn strip_trailing(s: &str, c: char) -> (r: &str)
    ensures
        r@ == s@.take(s@.len() - char_suffix_len(s@, c)),
{
    let n = s.unicode_len();
    let mut b: usize = n;
    while b > 0 && s.get_char(b - 1) == c
        invariant
            0 <= b <= n,
            n == s@.len(),
            forall|k: int| b <= k < n ==> s@[k] == c,
        decreases b,
    {
        b = b - 1;
    }
    proof {
        lemma_char_suffix_unique(s@, c, n - b);
    }
    let r = s.substring_char(0, b);
    proof {
        assert(r@ =~= s@.take(s@.len() - char_suffix_len(s@, c)));
    }
    r
}

/// The string with every leading repetition of a non-empty prefix removed.
pub open spec fn strip_prefix_all(s: Seq<char>, p: Seq<char>) -> Seq<char>
    decreases s.len(),
{
    if p.len() > 0 && match_at(s, p, 0) {
        strip_prefix_all(s.skip(p.len() as int), p)
    } else {
        s
    }
}

/// Strip every leading repetition of a prefix.
pub fn strip_prefix_repeated<'a>(s: &'a str, p: &str) -> (r: &'a str)
    ensures
        r@ == strip_prefix_all(s@, p@),
    decreases s@.len(),
{
    let m = p.unicode_len();
    if m == 0 {
        return s;
    }
    if starts_with(s, p) {
        let n = s.unicode_len();
        let rest = s.substring_char(m, n);
        proof {
            assert(rest@ =~= s@.skip(m as int));
        }
        strip_prefix_repeated(rest, p)
    } else {
        s
    }
}

/// The string with every occurrence of `from` replaced by `to`, scanning
/// left to right without revisiting replacements.
pub open spec fn replace_spec(s: Seq<char>, from: Seq<char>, to: Seq<char>) -> Seq<char>
    decreases s.len(),
{
    if s.len() == 0 {
        s
    } else if from.len() > 0 && match_at(s, from, 0) {
        to.add(replace_spec(s.skip(from.len() as int), from, to))
    } else {
        seq![s[0]].add(replace_spec(s.skip(1), from, to))
    }
}

proof fn lemma_replace_step(s: Seq<char>, from: Seq<char>, to: Seq<char>, i: int)
    requires
        0 <= i < s.len(),
    ensures
        match_at(s, from, i) == (from.len() <= s.len() - i && match_at(s.skip(i), from, 0)),
        match_at(s, from, i) && from.len() > 0 ==> replace_spec(s.skip(i), from, to) == to.add(
            replace_spec(s.skip(i + from.len()), from, to),
        ),
        !match_at(s, from, i) || from.len() == 0 ==> replace_spec(s.skip(i), from, to) == seq![
            s[i],
        ].add(replace_spec(s.skip(i + 1), from, to)),
{
    let rest = s.skip(i);
    if 0 <= i && i + from.len() <= s.len() {
        assert(rest.subrange(0, from.len() as int) =~= s.subrange(i, i + from.len() as int));
    }
    assert(rest[0] == s[i]);
    assert(rest.skip(1) =~= s.skip(i + 1));
    if from.len() > 0 && match_at(s, from, i) {
        assert(rest.skip(from.len() as int) =~= s.skip(i + from.len()));
    }
}

/// Replace every occurrence of a pattern in a string.
pub fn replace_all(s: &str, from: &str, to: &str) -> (r: String)
    ensures
        r@ == replace_spec(s@, from@, to@),
{
    let n = s.unicode_len();
    let m = from.unicode_len();
    let mut out = String::new();
    let mut i: usize = 0;
    proof {
        assert(s@.skip(0) =~= s@);
        assert(Seq::<char>::empty().add(replace_spec(s@, from@, to@)) =~= replace_spec(
            s@,
            from@,
            to@,
        ));
    }
    while i < n
        invariant
            0 <= i <= n,
            n == s@.len(),
            m == from@.len(),
            replace_spec(s@, from@, to@) == out@.add(replace_spec(s@.skip(i as int), from@, to@)),
        decreases n - i,
    {
        proof {
            lemma_replace_step(s@, from@, to@, i as int);
        }
        let matched = if m > 0 && m <= n - i {
            matches_at(s, from, i)
        } else {
            false
        };
        if matched {
            out.append(to);
            i = i + m;
        } else {
            string_push(&mut out, s.get_char(i));
            i = i + 1;
        }
        proof {
            assert(replace_spec(s@, from@, to@) =~= out@.add(
                replace_spec(s@.skip(i as int), from@, to@),
            ));
        }
    }
    proof {
        assert(s@.skip(n as int) =~= Seq::<char>::empty());
        assert(replace_spec(s@, from@, to@) =~= out@);
    }
    out
}

/// Ten to the given power.
pub open spec fn pow10(k: int) -> nat
    decreases k,
{
    if k <= 0 {
        1
    } else {
        10 * pow10(k - 1)
    }
}

/// `digits_val` is bounded by ten to the number of digits.
pub proof fn lemma_digits_val_upper(s: Seq<char>)
    ensures
        digits_val(s) < pow10(s.len() as int),
    decreases s.len(),
{
    if s.len() > 0 {
        lemma_digits_val_upper(s.drop_last());
    }
}

/// The first whitespace-delimited token, after leading whitespace.
pub open spec fn first_token(s: Seq<char>) -> Seq<char> {
    let a = ws_prefix_len(s);
    let rest = s.skip(a);
    rest.take(non_ws_prefix_len(rest))
}

/// Number of leading non-whitespace characters.
pub open spec fn non_ws_prefix_len(s: Seq<char>) -> int
    decreases s.len(),
{
    if s.len() == 0 {
        0
    } else if !is_ws(s[0]) {
        1 + non_ws_prefix_len(s.subrange(1, s.len() as int))
    } else {
        0
    }
}

proof fn lemma_non_ws_prefix_unique(s: Seq<char>, p: int)
    requires
        0 <= p <= s.len(),
        forall|k: int| 0 <= k < p ==> !is_ws(s[k]),
        p < s.len() ==> is_ws(s[p]),
    ensures
        non_ws_prefix_len(s) == p,
    decreases s.len(),
{
    if s.len() == 0 {
    } else if !is_ws(s[0]) {
        assert(p >= 1) by {
            if p == 0 {
                assert(is_ws(s[0]));
            }
        }
        let t = s.subrange(1, s.len() as int);
        assert forall|k: int| 0 <= k < p - 1 implies !is_ws(t[k]) by {
            assert(t[k] == s[k + 1]);
        }
        if p - 1 < t.len() {
            assert(t[p - 1] == s[p]);
        }
        lemma_non_ws_prefix_unique(t, p - 1);
    } else {
        assert(p == 0) by {
            if p > 0 {
                assert(!is_ws(s[0]));
            }
        }
    }
}

/// Extract the first whitespace-delimited token.
pub fn first_token_exec(s: &str) -> (r: &str)
    ensures
        r@ == first_token(s@),
{
    let n = s.unicode_len();
    let mut a: usize = 0;
    while a < n && is_ws_char(s.get_char(a))
        invariant
            0 <= a <= n,
            n == s@.len(),
            forall|k: int| 0 <= k < a ==> is_ws(s@[k]),
        decreases n - a,
    {
        a = a + 1;
    }
    proof {
        lemma_ws_prefix_unique(s@, a as int);
    }
    let mut b: usize = a;
    while b < n && !is_ws_char(s.get_char(b))
        invariant
            a <= b <= n,
            n == s@.len(),
            forall|k: int| a <= k < b ==> !is_ws(s@[k]),
        decreases n - b,
    {
        b = b + 1;
    }
    proof {
        let rest = s@.skip(a as int);
        assert forall|k: int| 0 <= k < b - a implies !is_ws(rest[k]) by {
            assert(rest[k] == s@[a + k]);
        }
        if b < n {
            assert(rest[b - a] == s@[b as int]);
        }
        lemma_non_ws_prefix_unique(rest, b - a);
    }
    let r = s.substring_char(a, b);
    proof {
        assert(r@ =~= first_token(s@));
    }
    r
}

/// A line with one trailing carriage return removed.
pub open spec fn strip_cr(l: Seq<char>) -> Seq<char> {
    if l.len() > 0 && l.last() == '\r' {
        l.drop_last()
    } else {
        l
    }
}

/// The lines of a text: pieces between newlines, without the empty piece a
/// trailing newline leaves, each with one trailing carriage return removed.
/// Empty text has no lines.
pub open spec fn lines_of(s: Seq<char>) -> Seq<Seq<char>> {
    if s.len() == 0 {
        Seq::empty()
    } else {
        let p = split_spec(s, '\n');
        let q = if s.last() == '\n' {
            p.drop_last()
        } else {
            p
        };
        q.map_values(|l: Seq<char>| strip_cr(l))
    }
}

/// Split a text into its lines.
pub fn lines_vec(s: &str) -> (r: Vec<String>)
    ensures
        views_of(r@) == lines_of(s@),
{
    let n = s.unicode_len();
    if n == 0 {
        let r: Vec<String> = Vec::new();
        proof {
            assert(views_of(r@) =~= lines_of(s@));
        }
        return r;
    }
    let mut parts = split_char(s, '\n');
    if s.get_char(n - 1) == '\n' {
        parts.pop();
    }
    let ghost q = views_of(parts@);
    let m = parts.len();
    let mut out: Vec<String> = Vec::new();
    let mut i: usize = 0;
    while i < m
        invariant
            0 <= i <= m,
            m == parts@.len(),
            q == views_of(parts@),
            out@.len() == i,
            forall|k: int| 0 <= k < i ==> (#[trigger] out@[k])@ == strip_cr(q[k]),
        decreases m - i,
    {
        let piece = &parts[i];
        let pl = piece.as_str().unicode_len();
        let stripped: String = if pl > 0 && piece.as_str().get_char(pl - 1) == '\r' {
            let cut = piece.as_str().substring_char(0, pl - 1);
            proof {
                assert(cut@ =~= strip_cr(parts@[i as int]@));
            }
            cut.to_owned()
        } else {
            piece.clone()
        };
        proof {
            assert(stripped@ == strip_cr(q[i as int])) by {
                assert(q[i as int] == parts@[i as int]@);
            }
        }
        out.push(stripped);
        i = i + 1;
    }
    proof {
        let target = lines_of(s@);
        assert(target.len() == q.len());
        assert forall|k: int| 0 <= k < m implies views_of(out@)[k] == target[k] by {
            assert(views_of(out@)[k] == out@[k]@);
            assert(target[k] == strip_cr(q[k]));
        }
        assert(views_of(out@) =~= target);
    }
    out
}

/// Index of the first line containing the needle, or -1.
pub open spec fn line_with_idx(lines: Seq<Seq<char>>, needle: Seq<char>) -> int
    decreases lines.len(),
{
    if lines.len() == 0 {
        -1
    } else if contains_sub(lines[0], needle) {
        0
    } else if line_with_idx(lines.skip(1), needle) == -1 {
        -1
    } else {
        1 + line_with_idx(lines.skip(1), needle)
    }
}

proof fn lemma_line_with_unique(lines: Seq<Seq<char>>, needle: Seq<char>, p: int)
    requires
        p == -1 ==> forall|k: int| 0 <= k < lines.len() ==> !contains_sub(#[trigger] lines[k], needle),
        p >= 0 ==> 0 <= p < lines.len() && contains_sub(lines[p], needle) && forall|k: int|
            0 <= k < p ==> !contains_sub(#[trigger] lines[k], needle),
        p >= -1,
    ensures
        line_with_idx(lines, needle) == p,
    decreases lines.len(),
{
    if lines.len() == 0 {
    } else if contains_sub(lines[0], needle) {
        assert(p == 0) by {
            if p == -1 {
                assert(!contains_sub(lines[0], needle));
            }
        }
    } else {
        let t = lines.skip(1);
        if p == -1 {
            assert forall|k: int| 0 <= k < t.len() implies !contains_sub(
                #[trigger] t[k],
                needle,
            ) by {
                assert(t[k] == lines[k + 1]);
            }
            lemma_line_with_unique(t, needle, -1);
        } else {
            assert(p >= 1);
            assert(t[p - 1] == lines[p]);
            assert forall|k: int| 0 <= k < p - 1 implies !contains_sub(
                #[trigger] t[k],
                needle,
            ) by {
                assert(t[k] == lines[k + 1]);
            }
            lemma_line_with_unique(t, needle, p - 1);
        }
    }
}

/// Find the first line containing the needle.
pub fn find_line_with(lines: &Vec<String>, needle: &str) -> (r: Option<usize>)
    ensures
        match r {
            Some(i) => line_with_idx(views_of(lines@), needle@) == i as int && i < lines@.len(),
            None => line_with_idx(views_of(lines@), needle@) == -1,
        },
{
    let n = lines.len();
    let mut i: usize = 0;
    while i < n
        invariant
            0 <= i <= n,
            n == lines@.len(),
            forall|k: int| 0 <= k < i ==> !contains_sub(#[trigger] views_of(lines@)[k], needle@),
        decreases n - i,
    {
        if contains_str(lines[i].as_str(), needle) {
            proof {
                lemma_line_with_unique(views_of(lines@), needle@, i as int);
            }
            return Some(i);
        }
        proof {
            assert(!contains_sub(views_of(lines@)[i as int], needle@));
        }
        i = i + 1;
    }
    proof {
        lemma_line_with_unique(views_of(lines@), needle@, -1);
    }
    None
}

/// Upper-cased form of an ASCII letter; other characters unchanged.
pub open spec fn uc(c: char) -> char {
    if 'a' <= c && c <= 'z' {
        ((c as u8) - 32) as char
    } else {
        c
    }
}

/// The string with its ASCII letters upper-cased.
pub open spec fn ascii_upper(s: Seq<char>) -> Seq<char> {
    s.map_values(|c: char| uc(c))
}

/// Upper-case the ASCII letters of a string.
pub fn to_ascii_upper(s: &str) -> (r: String)
    ensures
        r@ == ascii_upper(s@),
{
    let n = s.unicode_len();
    let mut out = String::new();
    let mut i: usize = 0;
    while i < n
        invariant
            0 <= i <= n,
            n == s@.len(),
            out@ == ascii_upper(s@.take(i as int)),
        decreases n - i,
    {
        let c = s.get_char(i);
        let u = if 'a' <= c && c <= 'z' {
            ((c as u8) - 32) as char
        } else {
            c
        };
        proof {
            assert(u == uc(s@[i as int]));
        }
        string_push(&mut out, u);
        proof {
            assert(out@ =~= ascii_upper(s@.take(i + 1)));
        }
        i = i + 1;
    }
    proof {
        assert(s@.take(n as int) =~= s@);
    }
    out
}

/// Pieces joined with a separator between them.
pub open spec fn join_with(pieces: Seq<Seq<char>>, sep: Seq<char>) -> Seq<char>
    decreases pieces.len(),
{
    if pieces.len() == 0 {
        Seq::empty()
    } else if pieces.len() == 1 {
        pieces[0]
    } else {
        join_with(pieces.drop_last(), sep).add(sep).add(pieces.last())
    }
}

/// Join strings with a separator.
pub fn join_strings(pieces: &Vec<String>, sep: &str) -> (r: String)
    ensures
        r@ == join_with(views_of(pieces@), sep@),
{
    let n = pieces.len();
    let mut out = String::new();
    let mut i: usize = 0;
    while i < n
        invariant
            0 <= i <= n,
            n == pieces@.len(),
            out@ == join_with(views_of(pieces@).take(i as int), sep@),
        decreases n - i,
    {
        if i > 0 {
            out.append(sep);
        }
        out.append(pieces[i].as_str());
        proof {
            let vs = views_of(pieces@);
            assert(vs.take(i + 1).drop_last() =~= vs.take(i as int));
            assert(vs.take(i + 1).last() == vs[i as int]);
        }
        i = i + 1;
    }
    proof {
        assert(views_of(pieces@).take(n as int) =~= views_of(pieces@));
    }
    out
}

} // verus!
