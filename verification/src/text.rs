//! Character-level text helpers shared by the parsers and report builders.
//!
//! Text is modelled as `Seq<char>`; executable code builds `Vec<char>` buffers
//! and turns them into `String`s at the end.
use vstd::prelude::*;

verus! {

/// Collects the characters of a string slice.
pub fn chars_of(s: &str) -> (v: Vec<char>)
    ensures
        v@ == s@,
{
    broadcast use vstd::string::group_string_axioms;
    let mut v: Vec<char> = Vec::new();
    for c in it: s.chars()
        invariant
            v@ == it.seq().take(it.index() as int),
            it.seq() == s@,
    {
        v.push(c);
    }
    v
}

/// Builds an owned `String` holding exactly the given characters.
///
/// Trusted: calls `String::from_iter` of std, whose documentation says the
/// string is the concatenation of the characters in iteration order.
#[verifier::external_body]
pub(crate) fn string_of(v: &[char]) -> (s: String)
    ensures
        s@ == v@,
{
    String::from_iter(v.iter())
}

/// Owned copy of a string slice.
pub fn owned(s: &str) -> (r: String)
    ensures
        r@ == s@,
{
    String::from_str(s)
}

/// Appends the characters of `s` to `out`.
pub fn push_str(out: &mut Vec<char>, s: &str)
    ensures
        final(out)@ == old(out)@ + s@,
{
    let v = chars_of(s);
    let mut i: usize = 0;
    while i < v.len()
        invariant
            i <= v.len(),
            v@ == s@,
            out@ == old(out)@ + v@.take(i as int),
        decreases v.len() - i,
    {
        out.push(v[i]);
        i = i + 1;
        assert(v@.take(i as int) == v@.take(i - 1 as int).push(v@[i - 1]));
    }
    assert(v@.take(v.len() as int) == v@);
}

/// Appends a slice of characters to `out`.
pub fn push_chars(out: &mut Vec<char>, s: &[char])
    ensures
        final(out)@ == old(out)@ + s@,
{
    let mut i: usize = 0;
    while i < s.len()
        invariant
            i <= s.len(),
            out@ == old(out)@ + s@.take(i as int),
        decreases s.len() - i,
    {
        out.push(s[i]);
        i = i + 1;
        assert(s@.take(i as int) == s@.take(i - 1 as int).push(s@[i - 1]));
    }
    assert(s@.take(s.len() as int) == s@);
}

/// Equality of two string slices, character by character.
pub fn str_eq(a: &str, b: &str) -> (r: bool)
    ensures
        r == (a@ == b@),
{
    let x = chars_of(a);
    let y = chars_of(b);
    slice_eq(&x, &y)
}

/// Equality of two character slices.
pub fn slice_eq(x: &[char], y: &[char]) -> (r: bool)
    ensures
        r == (x@ == y@),
{
    if x.len() != y.len() {
        return false;
    }
    let mut i: usize = 0;
    while i < x.len()
        invariant
            i <= x.len(),
            x.len() == y.len(),
            forall|k: int| 0 <= k < i ==> x@[k] == y@[k],
        decreases x.len() - i,
    {
        if x[i] != y[i] {
            return false;
        }
        i = i + 1;
    }
    assert(x@ =~= y@);
    true
}

// ---------------------------------------------------------------------------
// ASCII case

pub open spec fn is_ascii_upper(c: char) -> bool {
    'A' <= c <= 'Z'
}

pub open spec fn is_ascii_lower(c: char) -> bool {
    'a' <= c <= 'z'
}

pub open spec fn is_ascii_digit(c: char) -> bool {
    '0' <= c <= '9'
}

/// `char::to_ascii_lowercase`.
pub open spec fn lower(c: char) -> char {
    if is_ascii_upper(c) {
        ((c as u8) + 32) as char
    } else {
        c
    }
}

/// `char::to_ascii_uppercase`.
pub open spec fn upper(c: char) -> char {
    if is_ascii_lower(c) {
        ((c as u8) - 32) as char
    } else {
        c
    }
}

pub open spec fn lower_seq(s: Seq<char>) -> Seq<char> {
    s.map_values(|c: char| lower(c))
}

pub open spec fn upper_seq(s: Seq<char>) -> Seq<char> {
    s.map_values(|c: char| upper(c))
}

pub fn to_lower(c: char) -> (r: char)
    ensures
        r == lower(c),
{
    if 'A' <= c && c <= 'Z' {
        ((c as u8) + 32) as char
    } else {
        c
    }
}

/// `str::to_ascii_lowercase`, as characters.
pub fn lower_chars(s: &[char]) -> (r: Vec<char>)
    ensures
        r@ == lower_seq(s@),
{
    let mut r: Vec<char> = Vec::new();
    let mut i: usize = 0;
    while i < s.len()
        invariant
            i <= s.len(),
            r@ == lower_seq(s@.take(i as int)),
        decreases s.len() - i,
    {
        r.push(to_lower(s[i]));
        i = i + 1;
        assert(lower_seq(s@.take(i as int)) =~= lower_seq(s@.take(i - 1 as int)).push(lower(s@[i - 1])));
    }
    assert(s@.take(s.len() as int) == s@);
    r
}


/// `str::to_ascii_lowercase`.
pub fn ascii_lowercase(s: &str) -> (r: String)
    ensures
        r@ == lower_seq(s@),
{
    let v = chars_of(s);
    let l = lower_chars(&v);
    string_of(&l)
}

/// `str::eq_ignore_ascii_case`: equal after ASCII lowercasing.
pub fn eq_ignore_ascii_case(a: &str, b: &str) -> (r: bool)
    ensures
        r == (lower_seq(a@) == lower_seq(b@)),
{
    let x = chars_of(a);
    let y = chars_of(b);
    let lx = lower_chars(&x);
    let ly = lower_chars(&y);
    slice_eq(&lx, &ly)
}

// ---------------------------------------------------------------------------
// Searching

/// `prefix` is a prefix of `s`.
pub open spec fn has_prefix(s: Seq<char>, prefix: Seq<char>) -> bool {
    prefix.len() <= s.len() && s.take(prefix.len() as int) == prefix
}

pub fn starts_with(s: &[char], prefix: &str) -> (r: bool)
    ensures
        r == has_prefix(s@, prefix@),
{
    let p = chars_of(prefix);
    if p.len() > s.len() {
        return false;
    }
    let mut i: usize = 0;
    while i < p.len()
        invariant
            i <= p.len() <= s.len(),
            p@ == prefix@,
            forall|k: int| 0 <= k < i ==> s@[k] == p@[k],
        decreases p.len() - i,
    {
        if s[i] != p[i] {
            assert(s@.take(p.len() as int)[i as int] != p@[i as int]);
            return false;
        }
        i = i + 1;
    }
    assert(s@.take(p.len() as int) =~= p@);
    true
}

pub fn contains_char(s: &[char], c: char) -> (r: bool)
    ensures
        r == s@.contains(c),
{
    let mut i: usize = 0;
    while i < s.len()
        invariant
            i <= s.len(),
            forall|k: int| 0 <= k < i ==> s@[k] != c,
        decreases s.len() - i,
    {
        if s[i] == c {
            assert(s@[i as int] == c);
            return true;
        }
        i = i + 1;
    }
    false
}

/// `s` holds `needle` as a contiguous run of characters.
pub open spec fn has_infix(s: Seq<char>, needle: Seq<char>) -> bool {
    exists|i: int| 0 <= i && i + needle.len() <= s.len() && #[trigger] s.subrange(i, i + needle.len()) == needle
}

pub fn contains_str(s: &[char], needle: &str) -> (r: bool)
    ensures
        r == has_infix(s@, needle@),
{
    let n = chars_of(needle);
    if n.len() > s.len() {
        assert forall|i: int| 0 <= i && i + needle@.len() <= s@.len() implies #[trigger] s@.subrange(i, i + needle@.len()) != needle@ by {}
        return false;
    }
    let mut i: usize = 0;
    while i <= s.len() - n.len()
        invariant
            n@ == needle@,
            n.len() <= s.len(),
            i <= s.len(),
            forall|j: int| 0 <= j < i && j + n@.len() <= s@.len() ==> #[trigger] s@.subrange(j, j + n@.len()) != n@,
        decreases s.len() - i,
    {
        let mut k: usize = 0;
        let mut same = true;
        while k < n.len()
            invariant
                k <= n.len(),
                i + n.len() <= s.len(),
                same == (forall|m: int| 0 <= m < k ==> s@[i + m] == n@[m]),
            decreases n.len() - k,
        {
            if s[i + k] != n[k] {
                same = false;
            }
            k = k + 1;
        }
        if same {
            assert(s@.subrange(i as int, i + n@.len()) =~= n@);
            return true;
        }
        assert(s@.subrange(i as int, i + n@.len()) != n@) by {
            let m = choose|m: int| 0 <= m < n@.len() && s@[i + m] != n@[m];
            assert(s@.subrange(i as int, i + n@.len())[m] == s@[i + m]);
        }
        i = i + 1;
    }
    false
}

// ---------------------------------------------------------------------------
// Whitespace trimming (`str::trim`: the Unicode White_Space property)

pub open spec fn is_ws(c: char) -> bool {
    ||| '\u{9}' <= c <= '\u{d}'
    ||| c == ' '
    ||| c == '\u{85}'
    ||| c == '\u{a0}'
    ||| c == '\u{1680}'
    ||| '\u{2000}' <= c <= '\u{200a}'
    ||| c == '\u{2028}'
    ||| c == '\u{2029}'
    ||| c == '\u{202f}'
    ||| c == '\u{205f}'
    ||| c == '\u{3000}'
}

pub fn is_whitespace(c: char) -> (r: bool)
    ensures
        r == is_ws(c),
{
    ('\u{9}' <= c && c <= '\u{d}') || c == ' ' || c == '\u{85}' || c == '\u{a0}' || c == '\u{1680}'
        || ('\u{2000}' <= c && c <= '\u{200a}') || c == '\u{2028}' || c == '\u{2029}' || c
        == '\u{202f}' || c == '\u{205f}' || c == '\u{3000}'
}

/// Index of the first non-whitespace character (or the length).
pub open spec fn lead_end(s: Seq<char>, i: int) -> int
    decreases s.len() - i,
{
    if i >= s.len() || i < 0 {
        i
    } else if is_ws(s[i]) {
        lead_end(s, i + 1)
    } else {
        i
    }
}

/// One past the last non-whitespace character at or after `lo`.
pub open spec fn trail_start(s: Seq<char>, lo: int, j: int) -> int
    decreases j - lo,
{
    if j <= lo {
        j
    } else if is_ws(s[j - 1]) {
        trail_start(s, lo, j - 1)
    } else {
        j
    }
}

pub open spec fn trim_seq(s: Seq<char>) -> Seq<char> {
    let a = lead_end(s, 0);
    s.subrange(a, trail_start(s, a, s.len() as int))
}

proof fn lemma_lead_end_bounds(s: Seq<char>, i: int)
    requires
        0 <= i <= s.len(),
    ensures
        i <= lead_end(s, i) <= s.len(),
    decreases s.len() - i,
{
    if i < s.len() && is_ws(s[i]) {
        lemma_lead_end_bounds(s, i + 1);
    }
}

proof fn lemma_trail_start_bounds(s: Seq<char>, lo: int, j: int)
    requires
        lo <= j,
    ensures
        lo <= trail_start(s, lo, j) <= j,
    decreases j - lo,
{
    if j > lo && is_ws(s[j - 1]) {
        lemma_trail_start_bounds(s, lo, j - 1);
    }
}

/// `str::trim` on characters.
pub fn trim_chars(s: &[char]) -> (r: Vec<char>)
    ensures
        r@ == trim_seq(s@),
{
    let mut a: usize = 0;
    while a < s.len() && is_whitespace(s[a])
        invariant
            a <= s.len(),
            lead_end(s@, 0) == lead_end(s@, a as int),
        decreases s.len() - a,
    {
        a = a + 1;
    }
    let mut b: usize = s.len();
    while b > a && is_whitespace(s[b - 1])
        invariant
            a <= b <= s.len(),
            lead_end(s@, 0) == a,
            trail_start(s@, a as int, s.len() as int) == trail_start(s@, a as int, b as int),
        decreases b - a,
    {
        b = b - 1;
    }
    let mut r: Vec<char> = Vec::new();
    let mut i: usize = a;
    while i < b
        invariant
            a <= i <= b <= s.len(),
            r@ == s@.subrange(a as int, i as int),
        decreases b - i,
    {
        r.push(s[i]);
        i = i + 1;
        assert(s@.subrange(a as int, i as int) == s@.subrange(a as int, i - 1 as int).push(s@[i - 1]));
    }
    r
}

/// `str::trim`.
pub fn trim_str(s: &str) -> (r: Vec<char>)
    ensures
        r@ == trim_seq(s@),
{
    let v = chars_of(s);
    trim_chars(&v)
}

/// Number of bytes UTF-8 takes for `c`.
pub open spec fn utf8_width(c: char) -> nat {
    if (c as u32) < 0x80 {
        1
    } else if (c as u32) < 0x800 {
        2
    } else if (c as u32) < 0x10000 {
        3
    } else {
        4
    }
}

pub open spec fn utf8_len(s: Seq<char>) -> nat
    decreases s.len(),
{
    if s.len() == 0 {
        0
    } else {
        utf8_len(s.drop_last()) + utf8_width(s.last())
    }
}

// ---------------------------------------------------------------------------
// Prefixes and digits

/// `s` without its first `n` characters.
pub fn drop_chars(s: &[char], n: usize) -> (r: Vec<char>)
    requires
        n <= s@.len(),
    ensures
        r@ == s@.skip(n as int),
{
    let mut r: Vec<char> = Vec::new();
    let mut i: usize = n;
    while i < s.len()
        invariant
            n <= i <= s.len(),
            r@ == s@.subrange(n as int, i as int),
        decreases s.len() - i,
    {
        r.push(s[i]);
        i = i + 1;
        assert(s@.subrange(n as int, i as int) =~= s@.subrange(n as int, i - 1 as int).push(s@[i - 1]));
    }
    assert(s@.subrange(n as int, s.len() as int) =~= s@.skip(n as int));
    r
}

/// `str::strip_prefix`.
pub open spec fn strip_prefix_seq(s: Seq<char>, p: Seq<char>) -> Option<Seq<char>> {
    if has_prefix(s, p) {
        Some(s.skip(p.len() as int))
    } else {
        None
    }
}

pub fn strip_prefix(s: &[char], p: &str) -> (r: Option<Vec<char>>)
    ensures
        match r {
            Some(v) => strip_prefix_seq(s@, p@) == Some(v@),
            None => strip_prefix_seq(s@, p@) is None,
        },
{
    if starts_with(s, p) {
        let n = chars_of(p).len();
        Some(drop_chars(s, n))
    } else {
        None
    }
}

/// `str::trim_start_matches` with a string pattern: every leading copy of
/// `p` removed.
pub open spec fn trim_start_all(s: Seq<char>, p: Seq<char>) -> Seq<char>
    decreases s.len(),
{
    if p.len() > 0 && has_prefix(s, p) {
        trim_start_all(s.skip(p.len() as int), p)
    } else {
        s
    }
}

pub fn trim_start_matches(s: &[char], p: &str) -> (r: Vec<char>)
    ensures
        r@ == trim_start_all(s@, p@),
{
    let n = chars_of(p).len();
    let mut cur: Vec<char> = drop_chars(s, 0);
    assert(s@.skip(0) =~= s@);
    if n == 0 {
        return cur;
    }
    while starts_with(&cur, p)
        invariant
            n == p@.len(),
            n > 0,
            trim_start_all(cur@, p@) == trim_start_all(s@, p@),
        decreases cur@.len(),
    {
        cur = drop_chars(&cur, n);
    }
    cur
}

pub open spec fn all_ascii_digits(s: Seq<char>) -> bool {
    forall|i: int| 0 <= i < s.len() ==> is_ascii_digit(#[trigger] s[i])
}

pub fn is_all_ascii_digits(s: &[char]) -> (r: bool)
    ensures
        r == all_ascii_digits(s@),
{
    let mut i: usize = 0;
    while i < s.len()
        invariant
            i <= s.len(),
            forall|k: int| 0 <= k < i ==> is_ascii_digit(#[trigger] s@[k]),
        decreases s.len() - i,
    {
        if !('0' <= s[i] && s[i] <= '9') {
            return false;
        }
        i = i + 1;
    }
    true
}

/// The number written by a run of decimal digits.
pub open spec fn digits_value(s: Seq<char>) -> nat
    decreases s.len(),
{
    if s.len() == 0 {
        0
    } else {
        digits_value(s.drop_last()) * 10 + ((s.last() as u32 - '0' as u32) as nat)
    }
}

/// `str::parse::<u32>`: an optional `+`, then at least one decimal digit,
/// and a value that fits.
pub open spec fn spec_parse_u32(s: Seq<char>) -> Option<u32> {
    let d = if s.len() > 0 && s[0] == '+' { s.skip(1) } else { s };
    if d.len() > 0 && all_ascii_digits(d) && digits_value(d) <= u32::MAX {
        Some(digits_value(d) as u32)
    } else {
        None
    }
}

pub fn parse_u32(s: &[char]) -> (r: Option<u32>)
    ensures
        r == spec_parse_u32(s@),
{
    let d = if s.len() > 0 && s[0] == '+' { drop_chars(s, 1) } else { drop_chars(s, 0) };
    assert(s@.skip(0) =~= s@);
    if d.len() == 0 || !is_all_ascii_digits(&d) {
        return None;
    }
    let mut v: u64 = 0;
    let mut i: usize = 0;
    while i < d.len()
        invariant
            i <= d.len(),
            all_ascii_digits(d@),
            d@.len() > 0,
            d@ == (if s@.len() > 0 && s@[0] == '+' { s@.skip(1) } else { s@ }),
            v == digits_value(d@.take(i as int)),
            v <= u32::MAX,
        decreases d.len() - i,
    {
        assert(d@.take(i + 1 as int).drop_last() =~= d@.take(i as int));
        assert(is_ascii_digit(d@[i as int]));
        let digit = (d[i] as u32 - '0' as u32) as u64;
        let next = v * 10 + digit;
        assert(digits_value(d@.take(i + 1 as int)) == next);
        if next > 0xffff_ffff {
            proof {
                lemma_digits_value_grows(d@, i as int + 1);
                assert(digits_value(d@) > u32::MAX);
            }
            return None;
        }
        v = next;
        i = i + 1;
    }
    assert(d@.take(d.len() as int) =~= d@);
    Some(v as u32)
}

/// `str::parse::<u64>`: an optional `+`, then at least one decimal digit,
/// and a value that fits.
pub open spec fn spec_parse_u64(s: Seq<char>) -> Option<u64> {
    let d = if s.len() > 0 && s[0] == '+' { s.skip(1) } else { s };
    if d.len() > 0 && all_ascii_digits(d) && digits_value(d) <= u64::MAX {
        Some(digits_value(d) as u64)
    } else {
        None
    }
}

pub fn parse_u64(s: &[char]) -> (r: Option<u64>)
    ensures
        r == spec_parse_u64(s@),
{
    let d = if s.len() > 0 && s[0] == '+' { drop_chars(s, 1) } else { drop_chars(s, 0) };
    assert(s@.skip(0) =~= s@);
    if d.len() == 0 || !is_all_ascii_digits(&d) {
        return None;
    }
    let mut v: u128 = 0;
    let mut i: usize = 0;
    while i < d.len()
        invariant
            i <= d.len(),
            all_ascii_digits(d@),
            d@.len() > 0,
            d@ == (if s@.len() > 0 && s@[0] == '+' { s@.skip(1) } else { s@ }),
            v == digits_value(d@.take(i as int)),
            v <= u64::MAX,
        decreases d.len() - i,
    {
        assert(d@.take(i + 1 as int).drop_last() =~= d@.take(i as int));
        assert(is_ascii_digit(d@[i as int]));
        let digit = (d[i] as u32 - '0' as u32) as u128;
        let next = v * 10 + digit;
        assert(digits_value(d@.take(i + 1 as int)) == next);
        if next > 0xffff_ffff_ffff_ffff {
            proof {
                lemma_digits_value_grows(d@, i as int + 1);
                assert(digits_value(d@) > u64::MAX);
            }
            return None;
        }
        v = next;
        i = i + 1;
    }
    assert(d@.take(d.len() as int) =~= d@);
    Some(v as u64)
}

proof fn lemma_digits_value_grows(s: Seq<char>, k: int)
    requires
        0 <= k <= s.len(),
        all_ascii_digits(s),
    ensures
        digits_value(s.take(k)) <= digits_value(s),
    decreases s.len() - k,
{
    if k < s.len() {
        lemma_digits_value_grows(s, k + 1);
        assert(s.take(k + 1).drop_last() =~= s.take(k));
        assert(is_ascii_digit(s[k]));
    } else {
        assert(s.take(k) =~= s);
    }
}

// ---------------------------------------------------------------------------
// Number formatting

pub open spec fn digit_char(d: nat) -> char {
    if d < 10 {
        (('0' as u8) + d) as char
    } else {
        '?'
    }
}

pub open spec fn hex_char(d: nat, upper_case: bool) -> char {
    if d < 10 {
        (('0' as u8) + d) as char
    } else if d < 16 {
        if upper_case {
            (('A' as u8) + (d - 10)) as char
        } else {
            (('a' as u8) + (d - 10)) as char
        }
    } else {
        '?'
    }
}

/// Decimal digits of `n` (the `{}` format of an unsigned integer).
pub open spec fn dec(n: nat) -> Seq<char>
    decreases n,
{
    if n < 10 {
        seq![digit_char(n)]
    } else {
        dec(n / 10).push(digit_char(n % 10))
    }
}

/// Hexadecimal digits of `n`, left-padded with zeros to at least `width`
/// (the `{:0W x}` / `{:0W X}` formats).
pub open spec fn hex_pad(n: nat, width: nat, upper_case: bool) -> Seq<char>
    decreases n + width,
{
    if n < 16 && width <= 1 {
        seq![hex_char(n, upper_case)]
    } else {
        let w: nat = if width > 0 { (width - 1) as nat } else { 0 };
        hex_pad(n / 16, w, upper_case).push(hex_char(n % 16, upper_case))
    }
}

fn digit_of(d: u64) -> (c: char)
    requires
        d < 10,
    ensures
        c == digit_char(d as nat),
{
    ((d as u8) + ('0' as u8)) as char
}

fn hex_digit_of(d: u64, upper_case: bool) -> (c: char)
    requires
        d < 16,
    ensures
        c == hex_char(d as nat, upper_case),
{
    if d < 10 {
        ((d as u8) + ('0' as u8)) as char
    } else if upper_case {
        ((d as u8) - 10 + ('A' as u8)) as char
    } else {
        ((d as u8) - 10 + ('a' as u8)) as char
    }
}

/// Appends the decimal form of `n`.
pub fn push_dec(out: &mut Vec<char>, n: u64)
    ensures
        final(out)@ == old(out)@ + dec(n as nat),
    decreases n,
{
    if n >= 10 {
        push_dec(out, n / 10);
    }
    out.push(digit_of(n % 10));
}

/// Appends the zero-padded hexadecimal form of `n`.
pub fn push_hex(out: &mut Vec<char>, n: u64, width: u64, upper_case: bool)
    ensures
        final(out)@ == old(out)@ + hex_pad(n as nat, width as nat, upper_case),
    decreases n + width,
{
    if n < 16 && width <= 1 {
        out.push(hex_digit_of(n, upper_case));
    } else {
        let w: u64 = if width > 0 { width - 1 } else { 0 };
        push_hex(out, n / 16, w, upper_case);
        out.push(hex_digit_of(n % 16, upper_case));
    }
}


/// `format!("{:08x}", n)` of a 32-bit checksum.
pub fn hex8(n: u32) -> (s: String)
    ensures
        s@ == hex_pad(n as nat, 8, false),
{
    let mut v: Vec<char> = Vec::new();
    push_hex(&mut v, n as u64, 8, false);
    string_of(&v)
}

} // verus!

verus! {

/// What `String::from_utf8_lossy` makes of a byte sequence. Its value is
/// fixed by the bytes alone.
pub uninterp spec fn utf8_lossy(b: Seq<u8>) -> Seq<char>;

/// Bytes below 0x80 read as the ASCII characters they encode.
pub open spec fn ascii_text(b: Seq<u8>) -> Seq<char> {
    b.map_values(|x: u8| x as char)
}

/// Decodes bytes as UTF-8, replacing invalid sequences with U+FFFD.
///
/// Trusted: `String::from_utf8_lossy` of std. Its documentation says valid
/// UTF-8 comes back unchanged, so bytes that are all ASCII give the same
/// characters; otherwise the result is only named, not described.
#[verifier::external_body]
pub(crate) fn from_utf8_lossy(b: &[u8]) -> (r: Vec<char>)
    ensures
        r@ == utf8_lossy(b@),
        (forall|i: int| 0 <= i < b@.len() ==> b@[i] < 128) ==> r@ == ascii_text(b@),
{
    String::from_utf8_lossy(b).chars().collect()
}

} // verus!

verus! {

/// What `str::to_uppercase` makes of a string (Unicode uppercase mapping).
pub uninterp spec fn unicode_upper(s: Seq<char>) -> Seq<char>;

pub open spec fn is_ascii_seq(s: Seq<char>) -> bool {
    forall|i: int| 0 <= i < s.len() ==> (#[trigger] s[i] as u32) < 128
}

/// `str::to_uppercase`, as characters.
///
/// Trusted: std's `str::to_uppercase`. The result is only named, except that
/// on ASCII text the Unicode uppercase mapping is the ASCII one.
#[verifier::external_body]
pub(crate) fn unicode_to_upper(s: &str) -> (r: Vec<char>)
    ensures
        r@ == unicode_upper(s@),
        is_ascii_seq(s@) ==> r@ == upper_seq(s@),
{
    s.to_uppercase().chars().collect()
}

/// What `String::from_utf16_lossy` makes of UTF-16 code units.
pub uninterp spec fn utf16_lossy(units: Seq<u16>) -> Seq<char>;

/// Decodes UTF-16, replacing unpaired surrogates with U+FFFD.
///
/// Trusted: std's `String::from_utf16_lossy`; its result is only named.
#[verifier::external_body]
pub(crate) fn from_utf16_lossy(units: &[u16]) -> (r: Vec<char>)
    ensures
        r@ == utf16_lossy(units@),
{
    String::from_utf16_lossy(units).chars().collect()
}

} // verus!
