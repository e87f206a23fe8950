//! Byte- and string-level helpers shared by the parsers, the negotiators and
//! the scoring code: ASCII case folding, substring search, occurrence
//! counting, decimal formatting and IPv4 parsing.

use vstd::prelude::*;

verus! {

use vstd::string::StringSliceAdditionalSpecFns;

/// ASCII lower-casing of one byte.
pub open spec fn lower_byte(b: u8) -> u8 {
    if 65 <= b <= 90 {
        (b + 32) as u8
    } else {
        b
    }
}

/// ASCII lower-casing of a byte sequence.
pub open spec fn lower_bytes(s: Seq<u8>) -> Seq<u8> {
    s.map_values(|b: u8| lower_byte(b))
}

/// ASCII lower-casing, executable form.
pub fn to_lower_bytes(s: &[u8]) -> (r: Vec<u8>)
    ensures
        r@ == lower_bytes(s@),
{
    let mut r: Vec<u8> = Vec::new();
    let mut i: usize = 0;
    while i < s.len()
        invariant
            i <= s@.len(),
            r@ == lower_bytes(s@.subrange(0, i as int)),
        decreases s@.len() - i,
    {
        let b = s[i];
        if 65 <= b && b <= 90 {
            r.push(b + 32);
        } else {
            r.push(b);
        }
        i = i + 1;
        proof {
            assert(s@.subrange(0, i as int).map_values(|b: u8| lower_byte(b)) =~= s@.subrange(
                0,
                i - 1,
            ).map_values(|b: u8| lower_byte(b)).push(lower_byte(s@[i - 1])));
        }
    }
    proof {
        assert(s@.subrange(0, s@.len() as int) =~= s@);
    }
    r
}

/// True when `pat` occurs in `s` starting at position `i`.
pub open spec fn matches_at(s: Seq<u8>, pat: Seq<u8>, i: int) -> bool {
    &&& 0 <= i
    &&& i + pat.len() <= s.len()
    &&& s.subrange(i, i + pat.len()) == pat
}

/// True when `pat` occurs somewhere in `s`.
pub open spec fn contains_seq(s: Seq<u8>, pat: Seq<u8>) -> bool {
    exists|i: int| matches_at(s, pat, i)
}

/// Whether `pat` occurs at position `i` of `s`, executable form.
pub fn is_match_at(s: &[u8], pat: &[u8], i: usize) -> (r: bool)
    requires
        i + pat@.len() <= s@.len(),
    ensures
        r == matches_at(s@, pat@, i as int),
{
    let n = s.len();
    let mut j: usize = 0;
    while j < pat.len()
        invariant
            i + pat@.len() <= s@.len(),
            n == s@.len(),
            j <= pat@.len(),
            forall|k: int| 0 <= k < j ==> s@[i + k] == pat@[k],
        decreases pat@.len() - j,
    {
        assert(i + j < n);
        if s[i + j] != pat[j] {
            proof {
                assert(s@.subrange(i as int, i + pat@.len())[j as int] != pat@[j as int]);
            }
            return false;
        }
        j = j + 1;
    }
    proof {
        assert(s@.subrange(i as int, i + pat@.len()) =~= pat@);
    }
    true
}

/// First position at which `pat` occurs in `s`, if any.
pub fn find_seq(s: &[u8], pat: &[u8]) -> (r: Option<usize>)
    ensures
        match r {
            Some(i) => matches_at(s@, pat@, i as int) && forall|k: int|
                0 <= k < i ==> !matches_at(s@, pat@, k),
            None => !contains_seq(s@, pat@),
        },
{
    if pat.len() > s.len() {
        return None;
    }
    let end = s.len() - pat.len();
    let mut i: usize = 0;
    loop
        invariant
            pat@.len() <= s@.len(),
            end == s@.len() - pat@.len(),
            i <= end,
            forall|k: int| 0 <= k < i ==> !matches_at(s@, pat@, k),
        decreases end - i,
    {
        if is_match_at(s, pat, i) {
            return Some(i);
        }
        if i == end {
            return None;
        }
        i = i + 1;
    }
}

/// Whether `pat` occurs in `s`, executable form.
pub fn contains_bytes(s: &[u8], pat: &[u8]) -> (r: bool)
    ensures
        r == contains_seq(s@, pat@),
{
    find_seq(s, pat).is_some()
}

/// Number of non-overlapping occurrences of `pat` in `s`, scanning left to
/// right, matching the counting used for the judge marks.
pub open spec fn count_occurrences(s: Seq<u8>, pat: Seq<u8>) -> nat
    decreases s.len(),
    when pat.len() > 0
{
    if s.len() < pat.len() {
        0
    } else if s.subrange(0, pat.len() as int) == pat {
        1 + count_occurrences(s.skip(pat.len() as int), pat)
    } else {
        count_occurrences(s.skip(1), pat)
    }
}

proof fn lemma_count_occurrences_bound(s: Seq<u8>, pat: Seq<u8>)
    requires
        pat.len() > 0,
    ensures
        count_occurrences(s, pat) <= s.len(),
    decreases s.len(),
{
    if s.len() >= pat.len() {
        if s.subrange(0, pat.len() as int) == pat {
            lemma_count_occurrences_bound(s.skip(pat.len() as int), pat);
        } else {
            lemma_count_occurrences_bound(s.skip(1), pat);
        }
    }
}

/// Count of non-overlapping occurrences, executable form.
pub fn count_matches(s: &[u8], pat: &[u8]) -> (r: usize)
    requires
        pat@.len() > 0,
    ensures
        r == count_occurrences(s@, pat@),
{
    let mut i: usize = 0;
    let mut count: usize = 0;
    proof {
        lemma_count_occurrences_bound(s@, pat@);
        assert(s@.skip(0) =~= s@);
    }
    while i < s.len()
        invariant
            pat@.len() > 0,
            i <= s@.len(),
            count + count_occurrences(s@.skip(i as int), pat@) == count_occurrences(s@, pat@),
            count <= i,
        decreases s@.len() - i,
    {
        proof {
            lemma_count_occurrences_bound(s@.skip(i as int), pat@);
        }
        if pat.len() <= s.len() - i && is_match_at(s, pat, i) {
            proof {
                assert(s@.skip(i as int).subrange(0, pat@.len() as int) =~= s@.subrange(
                    i as int,
                    i + pat@.len(),
                ));
                assert(s@.skip(i as int).skip(pat@.len() as int) =~= s@.skip(i + pat@.len()));
            }
            count = count + 1;
            i = i + pat.len();
        } else {
            proof {
                if i + pat@.len() <= s@.len() {
                    assert(s@.skip(i as int).subrange(0, pat@.len() as int) =~= s@.subrange(
                        i as int,
                        i + pat@.len(),
                    ));
                } else {
                    assert(s@.skip(i as int).len() < pat@.len());
                }
                assert(s@.skip(i as int).skip(1) =~= s@.skip(i + 1));
            }
            i = i + 1;
        }
    }
    proof {
        assert(s@.skip(i as int).len() == 0);
        assert(s@.skip(i as int).len() < pat@.len());
    }
    count
}

/// Byte value of the ASCII dot.
pub const DOT: u8 = 46;

/// Byte value of ASCII zero.
pub const DIGIT_ZERO: u8 = 48;

/// Byte value of ASCII nine.
pub const DIGIT_NINE: u8 = 57;

/// An ASCII decimal digit.
pub open spec fn is_digit(b: u8) -> bool {
    DIGIT_ZERO <= b <= DIGIT_NINE
}

/// A non-empty, all-digit byte sequence.
pub open spec fn is_digits(s: Seq<u8>) -> bool {
    s.len() > 0 && forall|i: int| 0 <= i < s.len() ==> is_digit(#[trigger] s[i])
}

/// Value of an all-digit byte sequence read as a decimal number.
pub open spec fn dec_value(s: Seq<u8>) -> nat
    decreases s.len(),
{
    if s.len() == 0 {
        0
    } else {
        (dec_value(s.drop_last()) * 10 + (s.last() - DIGIT_ZERO)) as nat
    }
}

/// Decimal digits of `n`, most significant first.
pub open spec fn dec_digits(n: nat) -> Seq<u8>
    decreases n,
{
    if n < 10 {
        seq![(n + DIGIT_ZERO) as u8]
    } else {
        dec_digits(n / 10).push(((n % 10) + DIGIT_ZERO) as u8)
    }
}

/// `dec_digits` always yields a digit string that reads back as `n`.
pub proof fn lemma_dec_digits_value(n: nat)
    ensures
        is_digits(dec_digits(n)),
        dec_value(dec_digits(n)) == n,
    decreases n,
{
    if n < 10 {
        assert(dec_digits(n) =~= seq![(n + DIGIT_ZERO) as u8]);
        assert(dec_digits(n).drop_last() =~= Seq::<u8>::empty());
        assert(dec_value(Seq::<u8>::empty()) == 0);
        assert(dec_digits(n).last() == (n + DIGIT_ZERO) as u8);
    } else {
        lemma_dec_digits_value(n / 10);
        let d = ((n % 10) + DIGIT_ZERO) as u8;
        assert(dec_digits(n).drop_last() =~= dec_digits(n / 10));
        assert(dec_digits(n).last() == d);
        assert(n == (n / 10) * 10 + n % 10) by (nonlinear_arith);
    }
}

/// Decimal rendering of a number, executable form.
pub fn format_u64(n: u64) -> (r: Vec<u8>)
    ensures
        r@ == dec_digits(n as nat),
    decreases n,
{
    let mut r: Vec<u8> = if n >= 10 {
        format_u64(n / 10)
    } else {
        Vec::new()
    };
    r.push((n % 10) as u8 + DIGIT_ZERO);
    proof {
        if n >= 10 {
            assert(r@ =~= dec_digits((n / 10) as nat).push(((n % 10) + DIGIT_ZERO) as u8));
        } else {
            assert(r@ =~= seq![((n % 10) + DIGIT_ZERO) as u8]);
            assert(n % 10 == n);
        }
    }
    r
}

/// Powers of ten.
pub open spec fn pow10(n: nat) -> nat
    decreases n,
{
    if n == 0 {
        1
    } else {
        10 * pow10((n - 1) as nat)
    }
}

/// A string of `k` digits reads as a value below `10^k`.
proof fn lemma_dec_value_upper(s: Seq<u8>)
    requires
        forall|i: int| 0 <= i < s.len() ==> is_digit(#[trigger] s[i]),
    ensures
        dec_value(s) < pow10(s.len() as nat),
    decreases s.len(),
{
    if s.len() > 0 {
        lemma_dec_value_upper(s.drop_last());
    }
}

/// A digit string without a leading zero reads as at least `10^(k-1)`.
proof fn lemma_dec_value_lower(s: Seq<u8>)
    requires
        is_digits(s),
        s[0] != DIGIT_ZERO,
    ensures
        dec_value(s) >= pow10((s.len() - 1) as nat),
    decreases s.len(),
{
    if s.len() > 1 {
        assert(s.drop_last()[0] == s[0]);
        lemma_dec_value_lower(s.drop_last());
    }
}

/// Leading zeros do not change the value read.
proof fn lemma_dec_value_strip_zero(s: Seq<u8>)
    requires
        s.len() > 0,
        s[0] == DIGIT_ZERO,
    ensures
        dec_value(s) == dec_value(s.skip(1)),
    decreases s.len(),
{
    if s.len() > 1 {
        assert(s.drop_last()[0] == s[0]);
        lemma_dec_value_strip_zero(s.drop_last());
        assert(s.drop_last().skip(1) =~= s.skip(1).drop_last());
        assert(s.skip(1).last() == s.last());
    } else {
        assert(s.skip(1) =~= Seq::<u8>::empty());
        assert(dec_value(Seq::<u8>::empty()) == 0);
        assert(s.drop_last() =~= Seq::<u8>::empty());
    }
}

/// A decimal port number: digits only, value at most `65535`.  Leading zeros
/// are accepted, as `u16` parsing in the surrounding ecosystem accepts them.
pub open spec fn is_port(s: Seq<u8>) -> bool {
    is_digits(s) && dec_value(s) <= 65535
}

/// Parses a decimal port, returning `Some` exactly on valid port strings.
pub fn parse_port(s: &[u8]) -> (r: Option<u16>)
    ensures
        match r {
            Some(p) => is_port(s@) && p == dec_value(s@),
            None => !is_port(s@),
        },
{
    let n = s.len();
    if n == 0 {
        return None;
    }
    // Skip leading zeros so that the length check below is exact.
    let mut start: usize = 0;
    proof {
        assert(s@.skip(0) =~= s@);
    }
    while start < n - 1 && s[start] == DIGIT_ZERO
        invariant
            n == s@.len(),
            n > 0,
            start < n,
            forall|i: int| 0 <= i < start ==> is_digit(#[trigger] s@[i]),
            dec_value(s@.skip(start as int)) == dec_value(s@),
        decreases n - start,
    {
        proof {
            lemma_dec_value_strip_zero(s@.skip(start as int));
            assert(s@.skip(start as int).skip(1) =~= s@.skip(start + 1));
        }
        start = start + 1;
    }
    let ghost t = s@.skip(start as int);
    let mut value: u32 = 0;
    let mut i: usize = start;
    while i < n
        invariant
            n == s@.len(),
            start <= i <= n,
            start < n,
            t == s@.skip(start as int),
            s@[start as int] != DIGIT_ZERO || start == n - 1,
            forall|k: int| 0 <= k < i ==> is_digit(#[trigger] s@[k]),
            dec_value(s@.skip(start as int)) == dec_value(s@),
            i - start <= 5,
            value == dec_value(s@.subrange(start as int, i as int)),
            value < 100000,
        decreases n - i,
    {
        let b = s[i];
        if b < DIGIT_ZERO || b > DIGIT_NINE {
            return None;
        }
        if i - start == 5 {
            // Six or more significant digits: the value cannot be a port.
            proof {
                if is_digits(s@) {
                    assert(t[0] == s@[start as int]);
                    assert(t.len() >= 6);
                    assert(forall|k: int| 0 <= k < t.len() ==> is_digit(#[trigger] t[k]));
                    lemma_dec_value_lower(t);
                    assert(pow10((t.len() - 1) as nat) >= pow10(5)) by {
                        lemma_pow10_increases(5, (t.len() - 1) as nat);
                    }
                    assert(pow10(5) == 100000) by {
                        reveal_with_fuel(pow10, 7);
                    }
                }
            }
            return None;
        }
        proof {
            assert(s@.subrange(start as int, i + 1).drop_last() =~= s@.subrange(
                start as int,
                i as int,
            ));
            assert(forall|k: int|
                0 <= k < i - start ==> is_digit(#[trigger] s@.subrange(start as int, i as int)[k]));
            lemma_dec_value_upper(s@.subrange(start as int, i as int));
            assert(pow10((i - start) as nat) <= pow10(4)) by {
                lemma_pow10_increases((i - start) as nat, 4);
            }
            assert(pow10(4) == 10000) by {
                reveal_with_fuel(pow10, 6);
            }
        }
        value = value * 10 + (b - DIGIT_ZERO) as u32;
        i = i + 1;
    }
    proof {
        assert(s@.subrange(start as int, n as int) =~= s@.skip(start as int));
        assert(forall|k: int| 0 <= k < s@.len() ==> is_digit(#[trigger] s@[k]));
    }
    if value <= 65535 {
        Some(value as u16)
    } else {
        None
    }
}

/// `pow10` is monotone.
proof fn lemma_pow10_increases(a: nat, b: nat)
    requires
        a <= b,
    ensures
        pow10(a) <= pow10(b),
    decreases b,
{
    if a < b {
        lemma_pow10_increases(a, (b - 1) as nat);
        assert(pow10((b - 1) as nat) >= 1) by {
            lemma_pow10_positive((b - 1) as nat);
        }
    }
}

/// `pow10` is positive.
proof fn lemma_pow10_positive(a: nat)
    ensures
        pow10(a) >= 1,
    decreases a,
{
    if a > 0 {
        lemma_pow10_positive((a - 1) as nat);
    }
}

/// First index at or after `from` holding byte `b`, as a deterministic
/// specification.
pub open spec fn find_byte_spec(s: Seq<u8>, b: u8, from: int) -> Option<int>
    decreases s.len() - from,
    when 0 <= from <= s.len()
{
    if from >= s.len() {
        None
    } else if s[from] == b {
        Some(from)
    } else {
        find_byte_spec(s, b, from + 1)
    }
}

/// Basic facts about `find_byte_spec`: any hit lies in range, holds `b`, and
/// nothing before it does.
pub proof fn lemma_find_byte(s: Seq<u8>, b: u8, from: int)
    requires
        0 <= from <= s.len(),
    ensures
        match find_byte_spec(s, b, from) {
            Some(i) => from <= i < s.len() && s[i] == b && forall|k: int|
                from <= k < i ==> s[k] != b,
            None => forall|k: int| from <= k < s.len() ==> s[k] != b,
        },
    decreases s.len() - from,
{
    if from < s.len() && s[from] != b {
        lemma_find_byte(s, b, from + 1);
    }
}

/// First index at or after `from` holding `b`, executable form.
pub fn find_byte(s: &[u8], b: u8, from: usize) -> (r: Option<usize>)
    requires
        from <= s@.len(),
    ensures
        match r {
            Some(i) => find_byte_spec(s@, b, from as int) == Some(i as int),
            None => find_byte_spec(s@, b, from as int) is None,
        },
{
    let n = s.len();
    let mut i = from;
    while i < n
        invariant
            n == s@.len(),
            from <= i <= n,
            find_byte_spec(s@, b, from as int) == find_byte_spec(s@, b, i as int),
        decreases n - i,
    {
        if s[i] == b {
            return Some(i);
        }
        i = i + 1;
    }
    None
}


/// A decimal IPv4 octet: one to three digits, no leading zero unless it is
/// exactly "0", value at most 255.
pub open spec fn is_octet(s: Seq<u8>) -> bool {
    is_digits(s) && dec_value(s) <= 255 && (s.len() == 1 || s[0] != DIGIT_ZERO)
}

/// An IPv4 dotted-quad literal: four octets separated by single dots and
/// nothing else.
pub open spec fn is_ipv4(s: Seq<u8>) -> bool {
    match find_byte_spec(s, DOT, 0) {
        Some(a) => match find_byte_spec(s, DOT, a + 1) {
            Some(b) => match find_byte_spec(s, DOT, b + 1) {
                Some(c) => find_byte_spec(s, DOT, c + 1) is None && is_octet(s.subrange(0, a))
                    && is_octet(s.subrange(a + 1, b)) && is_octet(s.subrange(b + 1, c)) && is_octet(
                    s.subrange(c + 1, s.len() as int),
                ),
                None => false,
            },
            None => false,
        },
        None => false,
    }
}

/// The four numeric octets of a dotted-quad literal.
pub open spec fn ipv4_octets(s: Seq<u8>) -> (u8, u8, u8, u8)
    recommends
        is_ipv4(s),
{
    let a = find_byte_spec(s, DOT, 0).unwrap();
    let b = find_byte_spec(s, DOT, a + 1).unwrap();
    let c = find_byte_spec(s, DOT, b + 1).unwrap();
    (
        dec_value(s.subrange(0, a)) as u8,
        dec_value(s.subrange(a + 1, b)) as u8,
        dec_value(s.subrange(b + 1, c)) as u8,
        dec_value(s.subrange(c + 1, s.len() as int)) as u8,
    )
}

/// Parses one octet; `Some` exactly on valid octet strings.
fn parse_octet(s: &[u8], from: usize, to: usize) -> (r: Option<u8>)
    requires
        from <= to <= s@.len(),
    ensures
        match r {
            Some(v) => is_octet(s@.subrange(from as int, to as int)) && v == dec_value(
                s@.subrange(from as int, to as int),
            ),
            None => !is_octet(s@.subrange(from as int, to as int)),
        },
{
    let ghost seg = s@.subrange(from as int, to as int);
    let len = to - from;
    if len == 0 || len > 3 {
        proof {
            if len > 3 && is_digits(seg) && (seg.len() == 1 || seg[0] != DIGIT_ZERO) {
                lemma_dec_value_lower(seg);
                lemma_pow10_increases(3, (seg.len() - 1) as nat);
                assert(pow10(3) == 1000) by {
                    reveal_with_fuel(pow10, 5);
                }
            }
        }
        return None;
    }
    let mut value: u32 = 0;
    let mut i = from;
    while i < to
        invariant
            from <= i <= to <= s@.len(),
            seg == s@.subrange(from as int, to as int),
            to - from <= 3,
            forall|k: int| from <= k < i ==> is_digit(#[trigger] s@[k]),
            value == dec_value(s@.subrange(from as int, i as int)),
            value < 1000,
        decreases to - i,
    {
        let b = s[i];
        if b < DIGIT_ZERO || b > DIGIT_NINE {
            proof {
                assert(seg[i - from] == s@[i as int]);
            }
            return None;
        }
        proof {
            assert(s@.subrange(from as int, i + 1).drop_last() =~= s@.subrange(
                from as int,
                i as int,
            ));
            assert(forall|k: int|
                0 <= k < i - from ==> is_digit(#[trigger] s@.subrange(from as int, i as int)[k]));
            lemma_dec_value_upper(s@.subrange(from as int, i as int));
            lemma_pow10_increases((i - from) as nat, 2);
            assert(pow10(2) == 100) by {
                reveal_with_fuel(pow10, 4);
            }
        }
        value = value * 10 + (b - DIGIT_ZERO) as u32;
        i = i + 1;
    }
    proof {
        assert(forall|k: int| 0 <= k < seg.len() ==> is_digit(#[trigger] seg[k]));
        assert(seg[0] == s@[from as int]);
    }
    if len > 1 && s[from] == DIGIT_ZERO {
        return None;
    }
    if value <= 255 {
        Some(value as u8)
    } else {
        None
    }
}

/// Parses a dotted-quad IPv4 literal from bytes; `Some` exactly on valid
/// literals, with the numeric octets.
pub fn parse_ipv4_bytes(s: &[u8]) -> (r: Option<(u8, u8, u8, u8)>)
    ensures
        match r {
            Some(o) => is_ipv4(s@) && o == ipv4_octets(s@),
            None => !is_ipv4(s@),
        },
{
    let n = s.len();
    proof {
        lemma_find_byte(s@, DOT, 0);
    }
    let a = match find_byte(s, DOT, 0) {
        Some(a) => a,
        None => {
            return None;
        },
    };
    proof {
        lemma_find_byte(s@, DOT, 0);
    }
    assert(a < n);
    proof {
        lemma_find_byte(s@, DOT, a + 1);
    }
    let b = match find_byte(s, DOT, a + 1) {
        Some(b) => b,
        None => {
            return None;
        },
    };
    assert(b < n);
    proof {
        lemma_find_byte(s@, DOT, b + 1);
    }
    let c = match find_byte(s, DOT, b + 1) {
        Some(c) => c,
        None => {
            return None;
        },
    };
    assert(c < n);
    if find_byte(s, DOT, c + 1).is_some() {
        return None;
    }
    let o1 = match parse_octet(s, 0, a) {
        Some(v) => v,
        None => {
            return None;
        },
    };
    let o2 = match parse_octet(s, a + 1, b) {
        Some(v) => v,
        None => {
            return None;
        },
    };
    let o3 = match parse_octet(s, b + 1, c) {
        Some(v) => v,
        None => {
            return None;
        },
    };
    let o4 = match parse_octet(s, c + 1, s.len()) {
        Some(v) => v,
        None => {
            return None;
        },
    };
    Some((o1, o2, o3, o4))
}

/// Whether a string is an IPv4 dotted-quad literal.  The broker treats a
/// candidate host as an address exactly when this holds.
pub fn host_is_ipv4(host: &str) -> (r: bool)
    ensures
        r == is_ipv4(host.spec_bytes()),
{
    parse_ipv4_bytes(host.as_bytes()).is_some()
}

/// End of the maximal digit run starting at `i`.
pub open spec fn digit_run_end(s: Seq<u8>, i: int) -> int
    decreases s.len() - i,
    when 0 <= i <= s.len()
{
    if i >= s.len() {
        i
    } else if is_digit(s[i]) {
        digit_run_end(s, i + 1)
    } else {
        i
    }
}

/// The run end never moves backwards and stays in range.
pub proof fn lemma_digit_run_end(s: Seq<u8>, i: int)
    requires
        0 <= i <= s.len(),
    ensures
        i <= digit_run_end(s, i) <= s.len(),
    decreases s.len() - i,
{
    if i < s.len() && is_digit(s[i]) {
        lemma_digit_run_end(s, i + 1);
    }
}

/// Where an address-shaped substring starting at `i` would end: four digit
/// runs separated by single dots, each run taken as long as possible.
pub open spec fn ip_shape_end(s: Seq<u8>, i: int) -> Option<int>
    recommends
        0 <= i <= s.len(),
{
    let e1 = digit_run_end(s, i);
    if e1 == i || e1 >= s.len() || s[e1] != DOT {
        None
    } else {
        let e2 = digit_run_end(s, e1 + 1);
        if e2 == e1 + 1 || e2 >= s.len() || s[e2] != DOT {
            None
        } else {
            let e3 = digit_run_end(s, e2 + 1);
            if e3 == e2 + 1 || e3 >= s.len() || s[e3] != DOT {
                None
            } else {
                let e4 = digit_run_end(s, e3 + 1);
                if e4 == e3 + 1 {
                    None
                } else {
                    Some(e4)
                }
            }
        }
    }
}

/// All address-shaped substrings of `s`, left to right, non-overlapping.
pub open spec fn ip_substrings(s: Seq<u8>, i: int) -> Seq<Seq<u8>>
    decreases s.len() - i,
    when 0 <= i <= s.len() via ip_substrings_decreases
{
    if i >= s.len() {
        Seq::empty()
    } else {
        match ip_shape_end(s, i) {
            Some(e) => seq![s.subrange(i, e)] + ip_substrings(s, e),
            None => ip_substrings(s, i + 1),
        }
    }
}

#[via_fn]
proof fn ip_substrings_decreases(s: Seq<u8>, i: int) {
    if 0 <= i < s.len() {
        match ip_shape_end(s, i) {
            Some(e) => {
                lemma_digit_run_end(s, i);
                if digit_run_end(s, i) < s.len() {
                    lemma_digit_run_end(s, digit_run_end(s, i) + 1);
                    let e2 = digit_run_end(s, digit_run_end(s, i) + 1);
                    if e2 < s.len() {
                        lemma_digit_run_end(s, e2 + 1);
                        let e3 = digit_run_end(s, e2 + 1);
                        if e3 < s.len() {
                            lemma_digit_run_end(s, e3 + 1);
                        }
                    }
                }
            },
            None => {},
        }
    }
}

/// End of the maximal digit run, executable form.
fn digit_run_end_exec(s: &[u8], i: usize) -> (r: usize)
    requires
        i <= s@.len(),
    ensures
        r == digit_run_end(s@, i as int),
        i <= r <= s@.len(),
{
    let n = s.len();
    let mut j = i;
    while j < n && s[j] >= DIGIT_ZERO && s[j] <= DIGIT_NINE
        invariant
            i <= j <= n == s@.len(),
            digit_run_end(s@, i as int) == digit_run_end(s@, j as int),
        decreases n - j,
    {
        j = j + 1;
    }
    j
}

/// One scan step: the end of an address-shaped substring at `i`, if any.
fn ip_shape_end_exec(s: &[u8], i: usize) -> (r: Option<usize>)
    requires
        i <= s@.len(),
    ensures
        match r {
            Some(e) => ip_shape_end(s@, i as int) == Some(e as int) && i < e <= s@.len(),
            None => ip_shape_end(s@, i as int) is None,
        },
{
    let n = s.len();
    let e1 = digit_run_end_exec(s, i);
    if e1 == i || e1 >= n || s[e1] != DOT {
        return None;
    }
    let e2 = digit_run_end_exec(s, e1 + 1);
    if e2 == e1 + 1 || e2 >= n || s[e2] != DOT {
        return None;
    }
    let e3 = digit_run_end_exec(s, e2 + 1);
    if e3 == e2 + 1 || e3 >= n || s[e3] != DOT {
        return None;
    }
    let e4 = digit_run_end_exec(s, e3 + 1);
    if e4 == e3 + 1 {
        return None;
    }
    Some(e4)
}

/// Collects every address-shaped substring of `s`, as the anonymity
/// classification does over a response body.
pub fn find_ip_substrings(s: &[u8]) -> (r: Vec<Vec<u8>>)
    ensures
        r.deep_view() == ip_substrings(s@, 0),
{
    let n = s.len();
    let mut r: Vec<Vec<u8>> = Vec::new();
    let mut i: usize = 0;
    while i < n
        invariant
            i <= n == s@.len(),
            r.deep_view() + ip_substrings(s@, i as int) == ip_substrings(s@, 0),
        decreases n - i,
    {
        match ip_shape_end_exec(s, i) {
            Some(e) => {
                let mut piece: Vec<u8> = Vec::new();
                let mut j = i;
                while j < e
                    invariant
                        i <= j <= e <= s@.len(),
                        piece@ == s@.subrange(i as int, j as int),
                    decreases e - j,
                {
                    piece.push(s[j]);
                    proof {
                        assert(s@.subrange(i as int, j + 1) =~= s@.subrange(i as int, j as int).push(
                            s@[j as int],
                        ));
                    }
                    j = j + 1;
                }
                let ghost prev = r.deep_view();
                r.push(piece);
                proof {
                    assert(r.deep_view() =~~= prev.push(s@.subrange(i as int, e as int)));
                }
                i = e;
            },
            None => {
                i = i + 1;
            },
        }
        proof {
            assert(r.deep_view() + ip_substrings(s@, i as int) =~~= ip_substrings(s@, 0));
        }
    }
    proof {
        assert(r.deep_view() =~~= ip_substrings(s@, 0));
    }
    r
}

/// Bytes equality, executable form.
pub fn bytes_eq(a: &[u8], b: &[u8]) -> (r: bool)
    ensures
        r == (a@ == b@),
{
    if a.len() != b.len() {
        return false;
    }
    let mut i: usize = 0;
    while i < a.len()
        invariant
            a@.len() == b@.len(),
            i <= a@.len(),
            forall|k: int| 0 <= k < i ==> a@[k] == b@[k],
        decreases a@.len() - i,
    {
        if a[i] != b[i] {
            return false;
        }
        i = i + 1;
    }
    proof {
        assert(a@ =~= b@);
    }
    true
}

/// ASCII whitespace.
pub open spec fn is_space(b: u8) -> bool {
    b == 32 || b == 9 || b == 10 || b == 13
}

/// `s` with ASCII whitespace removed from both ends.
pub open spec fn trimmed(s: Seq<u8>) -> Seq<u8>
    decreases s.len(),
{
    if s.len() == 0 {
        s
    } else if is_space(s[0]) {
        trimmed(s.skip(1))
    } else if is_space(s.last()) {
        trimmed(s.drop_last())
    } else {
        s
    }
}

/// Trims ASCII whitespace from both ends, executable form.
pub fn trim_bytes(s: &[u8]) -> (r: Vec<u8>)
    ensures
        r@ == trimmed(s@),
{
    let n = s.len();
    let mut lo: usize = 0;
    proof {
        assert(s@.skip(0) =~= s@);
    }
    while lo < n && (s[lo] == 32 || s[lo] == 9 || s[lo] == 10 || s[lo] == 13)
        invariant
            lo <= n == s@.len(),
            trimmed(s@.skip(lo as int)) == trimmed(s@),
        decreases n - lo,
    {
        proof {
            assert(s@.skip(lo as int).skip(1) =~= s@.skip(lo + 1));
        }
        lo = lo + 1;
    }
    let mut hi: usize = n;
    proof {
        assert(s@.skip(lo as int).subrange(0, (n - lo) as int) =~= s@.subrange(
            lo as int,
            hi as int,
        ));
        assert(s@.skip(lo as int) =~= s@.subrange(lo as int, hi as int));
    }
    while hi > lo && (s[hi - 1] == 32 || s[hi - 1] == 9 || s[hi - 1] == 10 || s[hi - 1] == 13)
        invariant
            lo <= hi <= n == s@.len(),
            lo < n ==> !is_space(s@[lo as int]),
            trimmed(s@.subrange(lo as int, hi as int)) == trimmed(s@),
        decreases hi,
    {
        proof {
            assert(s@.subrange(lo as int, hi as int).drop_last() =~= s@.subrange(
                lo as int,
                hi - 1,
            ));
            if lo < hi - 1 {
                assert(s@.subrange(lo as int, hi as int)[0] == s@[lo as int]);
            }
        }
        hi = hi - 1;
    }
    let mut r: Vec<u8> = Vec::new();
    let mut i = lo;
    while i < hi
        invariant
            lo <= i <= hi <= s@.len(),
            r@ == s@.subrange(lo as int, i as int),
        decreases hi - i,
    {
        r.push(s[i]);
        proof {
            assert(s@.subrange(lo as int, i + 1) =~= s@.subrange(lo as int, i as int).push(
                s@[i as int],
            ));
        }
        i = i + 1;
    }
    proof {
        let seg = s@.subrange(lo as int, hi as int);
        if seg.len() > 0 {
            assert(seg[0] == s@[lo as int]);
            assert(seg.last() == s@[hi - 1]);
        }
        assert(trimmed(seg) == seg);
    }
    r
}

/// String equality via the underlying bytes.
pub fn str_eq(a: &str, b: &str) -> (r: bool)
    ensures
        r == (a@ == b@),
{
    let r = bytes_eq(a.as_bytes(), b.as_bytes());
    proof {
        if a.spec_bytes() == b.spec_bytes() {
            vstd::utf8::encode_utf8_decode_utf8(a@);
            vstd::utf8::encode_utf8_decode_utf8(b@);
        }
    }
    r
}

/// The ASCII character of one decimal digit.
pub open spec fn digit_char(d: nat) -> char {
    if d == 0 {
        '0'
    } else if d == 1 {
        '1'
    } else if d == 2 {
        '2'
    } else if d == 3 {
        '3'
    } else if d == 4 {
        '4'
    } else if d == 5 {
        '5'
    } else if d == 6 {
        '6'
    } else if d == 7 {
        '7'
    } else if d == 8 {
        '8'
    } else {
        '9'
    }
}

/// Decimal digits of `n` as characters, most significant first.
pub open spec fn dec_chars(n: nat) -> Seq<char>
    decreases n,
{
    if n < 10 {
        seq![digit_char(n)]
    } else {
        dec_chars(n / 10).push(digit_char(n % 10))
    }
}

/// Appends one decimal digit to a string.
fn push_digit(s: &mut String, d: u64)
    requires
        d < 10,
    ensures
        final(s)@ == old(s)@.push(digit_char(d as nat)),
{
    if d == 0 {
        s.append("0");
        proof {
            reveal_strlit("0");
            assert(s@ =~= old(s)@.push('0'));
        }
    } else if d == 1 {
        s.append("1");
        proof {
            reveal_strlit("1");
            assert(s@ =~= old(s)@.push('1'));
        }
    } else if d == 2 {
        s.append("2");
        proof {
            reveal_strlit("2");
            assert(s@ =~= old(s)@.push('2'));
        }
    } else if d == 3 {
        s.append("3");
        proof {
            reveal_strlit("3");
            assert(s@ =~= old(s)@.push('3'));
        }
    } else if d == 4 {
        s.append("4");
        proof {
            reveal_strlit("4");
            assert(s@ =~= old(s)@.push('4'));
        }
    } else if d == 5 {
        s.append("5");
        proof {
            reveal_strlit("5");
            assert(s@ =~= old(s)@.push('5'));
        }
    } else if d == 6 {
        s.append("6");
        proof {
            reveal_strlit("6");
            assert(s@ =~= old(s)@.push('6'));
        }
    } else if d == 7 {
        s.append("7");
        proof {
            reveal_strlit("7");
            assert(s@ =~= old(s)@.push('7'));
        }
    } else if d == 8 {
        s.append("8");
        proof {
            reveal_strlit("8");
            assert(s@ =~= old(s)@.push('8'));
        }
    } else {
        s.append("9");
        proof {
            reveal_strlit("9");
            assert(s@ =~= old(s)@.push('9'));
        }
    }
}

/// Appends the decimal rendering of `n` to a string.
pub fn append_u64(s: &mut String, n: u64)
    ensures
        final(s)@ == old(s)@ + dec_chars(n as nat),
    decreases n,
{
    if n >= 10 {
        append_u64(s, n / 10);
    }
    push_digit(s, n % 10);
    proof {
        if n >= 10 {
            assert(s@ =~= old(s)@ + dec_chars(n as nat));
        } else {
            assert(n % 10 == n);
            assert(s@ =~= old(s)@ + dec_chars(n as nat));
        }
    }
}

/// Decimal rendering of a number as a string.
pub fn u64_to_string(n: u64) -> (r: String)
    ensures
        r@ == dec_chars(n as nat),
{
    let mut s = String::new();
    append_u64(&mut s, n);
    proof {
        assert(s@ =~= dec_chars(n as nat));
    }
    s
}

/// `s` with every non-overlapping occurrence of `pat`, scanning left to
/// right, replaced by `rep`.
pub open spec fn replace_seq(s: Seq<u8>, pat: Seq<u8>, rep: Seq<u8>) -> Seq<u8>
    decreases s.len(),
    when pat.len() > 0
{
    if s.len() < pat.len() {
        s
    } else if s.subrange(0, pat.len() as int) == pat {
        rep + replace_seq(s.skip(pat.len() as int), pat, rep)
    } else {
        seq![s[0]] + replace_seq(s.skip(1), pat, rep)
    }
}

/// Replacement, executable form.
pub fn replace_bytes(s: &[u8], pat: &[u8], rep: &[u8]) -> (r: Vec<u8>)
    requires
        pat@.len() > 0,
    ensures
        r@ == replace_seq(s@, pat@, rep@),
{
    let n = s.len();
    let mut r: Vec<u8> = Vec::new();
    let mut i: usize = 0;
    proof {
        assert(s@.skip(0) =~= s@);
        assert(r@ + replace_seq(s@.skip(0), pat@, rep@) =~= replace_seq(s@, pat@, rep@));
    }
    while i < n
        invariant
            n == s@.len(),
            pat@.len() > 0,
            i <= n,
            r@ + replace_seq(s@.skip(i as int), pat@, rep@) == replace_seq(s@, pat@, rep@),
        decreases n - i,
    {
        if pat.len() <= n - i && is_match_at(s, pat, i) {
            proof {
                assert(s@.skip(i as int).subrange(0, pat@.len() as int) =~= s@.subrange(
                    i as int,
                    i + pat@.len(),
                ));
                assert(s@.skip(i as int).skip(pat@.len() as int) =~= s@.skip(i + pat@.len()));
            }
            append_to(&mut r, rep);
            i = i + pat.len();
            proof {
                assert(r@ + replace_seq(s@.skip(i as int), pat@, rep@) =~= replace_seq(
                    s@,
                    pat@,
                    rep@,
                ));
            }
        } else {
            proof {
                if i + pat@.len() <= s@.len() {
                    assert(s@.skip(i as int).subrange(0, pat@.len() as int) =~= s@.subrange(
                        i as int,
                        i + pat@.len(),
                    ));
                } else {
                    assert(s@.skip(i as int).len() < pat@.len());
                }
                assert(s@.skip(i as int).skip(1) =~= s@.skip(i + 1));
                assert(s@.skip(i as int)[0] == s@[i as int]);
            }
            r.push(s[i]);
            i = i + 1;
            proof {
                assert(r@ + replace_seq(s@.skip(i as int), pat@, rep@) =~= replace_seq(
                    s@,
                    pat@,
                    rep@,
                ));
            }
        }
    }
    proof {
        assert(s@.skip(i as int).len() == 0);
        assert(s@.skip(i as int).len() < pat@.len());
        assert(r@ =~= replace_seq(s@, pat@, rep@));
    }
    r
}

/// Appends a slice to a vector.
fn append_to(dst: &mut Vec<u8>, src: &[u8])
    ensures
        final(dst)@ == old(dst)@ + src@,
{
    let mut i: usize = 0;
    proof {
        assert(dst@ =~= old(dst)@ + src@.subrange(0, 0));
    }
    while i < src.len()
        invariant
            i <= src@.len(),
            dst@ == old(dst)@ + src@.subrange(0, i as int),
        decreases src@.len() - i,
    {
        dst.push(src[i]);
        proof {
            assert(dst@ =~= old(dst)@ + src@.subrange(0, i + 1));
        }
        i = i + 1;
    }
    proof {
        assert(dst@ =~= old(dst)@ + src@);
    }
}

/// An ASCII decimal digit character.
pub open spec fn is_dec_char(c: char) -> bool {
    '0' <= c <= '9'
}

} // verus!

