//! Fixed-point decimal numbers.
//!
//! Source payloads carry every number as text. This module parses such text
//! into scaled integers (a value with `f` fractional digits becomes
//! `round-toward-zero(x * 10^f)`) and formats scaled integers back into
//! decimal text. Both directions are exact and fully specified; the
//! serializers and the grammar parser are proved against these functions.

use vstd::prelude::*;

verus! {

/// Largest scaled magnitude the tolerant number parser accepts; anything
/// larger counts as unparsable and falls back to the caller's default.
pub const FIXED_ABS_LIMIT: i64 = 1_000_000_000_000_000;

/// Largest magnitude the integer parser accepts, mirroring the 32-bit
/// fields of the source format.
pub const INT_ABS_LIMIT: i64 = 2_147_483_647;

pub open spec fn spec_is_digit(c: char) -> bool {
    48 <= c as u32 <= 57
}

pub open spec fn spec_digit_val(c: char) -> int {
    c as u32 - 48
}

pub open spec fn spec_all_digits(s: Seq<char>) -> bool {
    forall|i: int| 0 <= i < s.len() ==> spec_is_digit(#[trigger] s[i])
}

/// Numeric value of a digit string, most significant digit first.
pub open spec fn spec_digits_val(s: Seq<char>) -> int
    decreases s.len(),
{
    if s.len() == 0 {
        0
    } else {
        spec_digits_val(s.drop_last()) * 10 + spec_digit_val(s.last())
    }
}

pub open spec fn spec_pow10(n: nat) -> int
    decreases n,
{
    if n == 0 {
        1
    } else {
        10 * spec_pow10((n - 1) as nat)
    }
}

/// Index of the first occurrence of `c` in `s`, or -1.
pub open spec fn spec_find(s: Seq<char>, c: char) -> int
    decreases s.len(),
{
    if s.len() == 0 {
        -1
    } else if s[0] == c {
        0
    } else {
        let r = spec_find(s.subrange(1, s.len() as int), c);
        if r == -1 {
            -1
        } else {
            r + 1
        }
    }
}

/// The digits before the first dot (or the whole string without one).
pub open spec fn spec_int_part(s: Seq<char>) -> Seq<char> {
    if spec_find(s, '.') == -1 {
        s
    } else {
        s.take(spec_find(s, '.'))
    }
}

/// The digits after the first dot (empty without one).
pub open spec fn spec_frac_part(s: Seq<char>) -> Seq<char> {
    if spec_find(s, '.') == -1 {
        Seq::empty()
    } else {
        s.skip(spec_find(s, '.') + 1)
    }
}

/// Whether the unsigned body of a decimal literal is well formed: digits,
/// at most one dot, and at least one digit somewhere.
pub open spec fn spec_body_valid(s: Seq<char>) -> bool {
    &&& spec_all_digits(spec_int_part(s))
    &&& spec_all_digits(spec_frac_part(s))
    &&& spec_int_part(s).len() + spec_frac_part(s).len() > 0
}

/// Scaled magnitude of a well-formed unsigned body: the integer part scaled
/// by `10^f`, plus the first `f` fractional digits (zero-padded on the
/// right); further fractional digits are truncated.
pub open spec fn spec_body_val(s: Seq<char>, f: nat) -> int {
    let fp = spec_frac_part(s);
    let taken = if fp.len() <= f {
        fp.len()
    } else {
        f
    };
    spec_digits_val(spec_int_part(s)) * spec_pow10(f) + spec_digits_val(fp.take(taken as int))
        * spec_pow10((f - taken) as nat)
}

/// Tolerant fixed-point parse of decimal text with `f` fractional digits:
/// an optional sign, then digits with at most one dot. Values whose scaled
/// magnitude exceeds `FIXED_ABS_LIMIT` are rejected.
pub open spec fn spec_parse_fixed(s: Seq<char>, f: nat) -> Option<int> {
    if s.len() == 0 {
        None
    } else {
        let neg = s[0] == '-';
        let body = if s[0] == '-' || s[0] == '+' {
            s.skip(1)
        } else {
            s
        };
        if !spec_body_valid(body) {
            None
        } else {
            let m = spec_body_val(body, f);
            if m > FIXED_ABS_LIMIT as int {
                None
            } else if neg {
                Some(-m)
            } else {
                Some(m)
            }
        }
    }
}

/// Tolerant integer parse: an optional sign then digits only, magnitude
/// at most `INT_ABS_LIMIT`.
pub open spec fn spec_parse_int(s: Seq<char>) -> Option<int> {
    if s.len() == 0 {
        None
    } else {
        let neg = s[0] == '-';
        let body = if s[0] == '-' || s[0] == '+' {
            s.skip(1)
        } else {
            s
        };
        if !(spec_all_digits(body) && body.len() > 0) {
            None
        } else {
            let m = spec_digits_val(body);
            if m > INT_ABS_LIMIT as int {
                None
            } else if neg {
                Some(-m)
            } else {
                Some(m)
            }
        }
    }
}

pub broadcast proof fn lemma_digits_val_nonneg(s: Seq<char>)
    requires
        spec_all_digits(s),
    ensures
        #[trigger] spec_digits_val(s) >= 0,
    decreases s.len(),
{
    if s.len() > 0 {
        assert(spec_all_digits(s.drop_last())) by {
            assert(forall|i: int|
                0 <= i < s.len() - 1 ==> spec_is_digit(#[trigger] s.drop_last()[i]) == spec_is_digit(
                    s[i],
                ));
        }
        lemma_digits_val_nonneg(s.drop_last());
    }
}

pub proof fn lemma_pow10_pos(n: nat)
    ensures
        spec_pow10(n) >= 1,
    decreases n,
{
    if n > 0 {
        lemma_pow10_pos((n - 1) as nat);
    }
}

/// Appending one digit multiplies the value by ten and adds the digit.
pub proof fn lemma_digits_val_push(s: Seq<char>, c: char)
    ensures
        spec_digits_val(s.push(c)) == spec_digits_val(s) * 10 + spec_digit_val(c),
{
    assert(s.push(c).drop_last() =~= s);
    assert(s.push(c).last() == c);
}

/// A digit string's value is below ten to its length.
pub proof fn lemma_digits_val_bound(s: Seq<char>)
    requires
        spec_all_digits(s),
    ensures
        spec_digits_val(s) < spec_pow10(s.len()),
    decreases s.len(),
{
    broadcast use lemma_digits_val_nonneg;

    if s.len() == 0 {
    } else {
        assert(spec_all_digits(s.drop_last())) by {
            assert(forall|i: int|
                0 <= i < s.len() - 1 ==> #[trigger] s.drop_last()[i] == s[i]);
        }
        lemma_digits_val_bound(s.drop_last());
        assert(spec_digit_val(s.last()) <= 9);
        assert(spec_pow10(s.len()) == 10 * spec_pow10((s.len() - 1) as nat));
    }
}

/// Without an occurrence there is nothing to find.
pub proof fn lemma_find_none(s: Seq<char>, c: char)
    requires
        forall|i: int| 0 <= i < s.len() ==> s[i] != c,
    ensures
        spec_find(s, c) == -1,
    decreases s.len(),
{
    if s.len() > 0 {
        lemma_find_none(s.subrange(1, s.len() as int), c);
    }
}

/// The first occurrence is found where it stands.
pub proof fn lemma_find_at(s: Seq<char>, c: char, k: int)
    requires
        0 <= k < s.len(),
        forall|i: int| 0 <= i < k ==> s[i] != c,
        s[k] == c,
    ensures
        spec_find(s, c) == k,
    decreases s.len(),
{
    if k > 0 {
        let t = s.subrange(1, s.len() as int);
        assert(forall|i: int| 0 <= i < k - 1 ==> t[i] != c);
        assert(t[k - 1] == c);
        lemma_find_at(t, c, k - 1);
    }
}

/// A digit string is worth at least its prefix.
pub proof fn lemma_digits_val_prefix_le(s: Seq<char>, i: int)
    requires
        spec_all_digits(s),
        0 <= i <= s.len(),
    ensures
        spec_digits_val(s.take(i)) <= spec_digits_val(s),
    decreases s.len() - i,
{
    broadcast use lemma_digits_val_nonneg;

    if i < s.len() {
        lemma_digits_val_prefix_le(s, i + 1);
        assert(s.take(i + 1).drop_last() =~= s.take(i));
        assert(spec_all_digits(s.take(i))) by {
            assert(forall|j: int| 0 <= j < i ==> #[trigger] s.take(i)[j] == s[j]);
        }
        assert(spec_digits_val(s.take(i + 1)) == spec_digits_val(s.take(i)) * 10 + spec_digit_val(
            s.take(i + 1).last(),
        ));
        assert(spec_digits_val(s.take(i)) * 10 >= spec_digits_val(s.take(i))) by {
            lemma_digits_val_nonneg(s.take(i));
        }
    } else {
        assert(s.take(i) =~= s);
    }
}

pub proof fn lemma_pow10_le(a: nat, b: nat)
    requires
        a <= b,
    ensures
        spec_pow10(a) <= spec_pow10(b),
    decreases b,
{
    if a < b {
        lemma_pow10_le(a, (b - 1) as nat);
        lemma_pow10_pos((b - 1) as nat);
    }
}

/// Ten to the `f`, as a machine integer.
pub fn pow10_i64(f: u32) -> (r: i64)
    requires
        f <= 15,
    ensures
        r == spec_pow10(f as nat),
        r >= 1,
{
    proof {
        reveal_with_fuel(spec_pow10, 17);
        assert(spec_pow10(15nat) == 1_000_000_000_000_000);
    }
    let mut r: i64 = 1;
    let mut i: u32 = 0;
    while i < f
        invariant
            i <= f,
            f <= 15,
            r == spec_pow10(i as nat),
        decreases f - i,
    {
        proof {
            lemma_pow10_le(i as nat, 14nat);
            reveal_with_fuel(spec_pow10, 16);
            assert(spec_pow10(14nat) == 100_000_000_000_000);
            lemma_pow10_pos(i as nat);
        }
        r = r * 10;
        i = i + 1;
    }
    r
}

/// First position of `c` in `s` at or after `from`, or the length.
pub fn find_char_from(s: &str, c: char, from: usize) -> (r: usize)
    requires
        from <= s@.len(),
    ensures
        from <= r <= s@.len(),
        forall|j: int| from <= j < r ==> s@[j] != c,
        r < s@.len() ==> s@[r as int] == c,
{
    let n = s.unicode_len();
    let mut i: usize = from;
    while i < n
        invariant
            from <= i <= n,
            n == s@.len(),
            forall|j: int| from <= j < i ==> s@[j] != c,
        decreases n - i,
    {
        if s.get_char(i) == c {
            return i;
        }
        i += 1;
    }
    n
}

/// Value of the digit run `s[from..to]`. `None` when a character is not a
/// digit or the value passes `limit`.
pub fn digits_value(s: &str, from: usize, to: usize, limit: i64) -> (r: Option<i64>)
    requires
        from <= to <= s@.len(),
        0 < limit <= FIXED_ABS_LIMIT,
    ensures
        match r {
            Some(v) => spec_all_digits(s@.subrange(from as int, to as int)) && v
                == spec_digits_val(s@.subrange(from as int, to as int)) && 0 <= v <= limit,
            None => !spec_all_digits(s@.subrange(from as int, to as int)) || spec_digits_val(
                s@.subrange(from as int, to as int),
            ) > limit,
        },
{
    let mut i: usize = from;
    let mut acc: i64 = 0;
    while i < to
        invariant
            from <= i <= to <= s@.len(),
            0 < limit <= FIXED_ABS_LIMIT,
            spec_all_digits(s@.subrange(from as int, i as int)),
            acc == spec_digits_val(s@.subrange(from as int, i as int)),
            0 <= acc <= limit,
        decreases to - i,
    {
        let c = s.get_char(i);
        let u = c as u32;
        proof {
            assert(s@.subrange(from as int, i as int).push(s@[i as int]) =~= s@.subrange(
                from as int,
                i as int + 1,
            ));
            lemma_digits_val_push(s@.subrange(from as int, i as int), s@[i as int]);
        }
        if u < 48 || u > 57 {
            proof {
                assert(!spec_is_digit(s@.subrange(from as int, to as int)[i - from]));
            }
            return None;
        }
        let d = (u - 48) as i64;
        let nacc = acc * 10 + d;
        if nacc > limit {
            proof {
                let whole = s@.subrange(from as int, to as int);
                if spec_all_digits(whole) {
                    lemma_digits_val_prefix_le(whole, i + 1 - from);
                    assert(whole.take(i + 1 - from) =~= s@.subrange(from as int, i as int + 1));
                }
            }
            return None;
        }
        acc = nacc;
        i += 1;
    }
    proof {
        assert(s@.subrange(from as int, i as int) =~= s@.subrange(from as int, to as int));
    }
    Some(acc)
}

/// Whether every character of `s[from..to]` is a digit.
pub fn all_digits_range(s: &str, from: usize, to: usize) -> (r: bool)
    requires
        from <= to <= s@.len(),
    ensures
        r == spec_all_digits(s@.subrange(from as int, to as int)),
{
    let mut i: usize = from;
    while i < to
        invariant
            from <= i <= to <= s@.len(),
            forall|j: int| from <= j < i ==> spec_is_digit(#[trigger] s@[j]),
        decreases to - i,
    {
        let u = s.get_char(i) as u32;
        if u < 48 || u > 57 {
            proof {
                assert(!spec_is_digit(s@.subrange(from as int, to as int)[i - from]));
            }
            return false;
        }
        i += 1;
    }
    true
}

/// Tolerant integer parse of decimal text, proved against `spec_parse_int`.
pub fn parse_int(s: &str) -> (r: Option<i64>)
    ensures
        match r {
            Some(v) => spec_parse_int(s@) == Some(v as int) && -INT_ABS_LIMIT <= v
                <= INT_ABS_LIMIT,
            None => spec_parse_int(s@) is None,
        },
{
    let n = s.unicode_len();
    if n == 0 {
        return None;
    }
    let c0 = s.get_char(0);
    let neg = c0 == '-';
    let start: usize = if c0 == '-' || c0 == '+' {
        1
    } else {
        0
    };
    proof {
        if start == 1 {
            assert(s@.skip(1) =~= s@.subrange(1, n as int));
        } else {
            assert(s@ =~= s@.subrange(0, n as int));
        }
    }
    if start == n {
        return None;
    }
    match digits_value(s, start, n, INT_ABS_LIMIT) {
        Some(v) => {
            if neg {
                Some(-v)
            } else {
                Some(v)
            }
        },
        None => None,
    }
}

/// A sequence whose prefix and the rest are all digits is all digits.
pub proof fn lemma_all_digits_split(s: Seq<char>, k: int)
    requires
        0 <= k <= s.len(),
        spec_all_digits(s.take(k)),
        spec_all_digits(s.skip(k)),
    ensures
        spec_all_digits(s),
{
    assert forall|i: int| 0 <= i < s.len() implies spec_is_digit(#[trigger] s[i]) by {
        if i < k {
            assert(s.take(k)[i] == s[i]);
            assert(spec_is_digit(s.take(k)[i]));
        } else {
            assert(s.skip(k)[i - k] == s[i]);
            assert(spec_is_digit(s.skip(k)[i - k]));
        }
    }
}

/// A sequence with a non-digit in its prefix is not all digits.
pub proof fn lemma_not_all_digits_take(s: Seq<char>, k: int)
    requires
        0 <= k <= s.len(),
        !spec_all_digits(s.take(k)),
    ensures
        !spec_all_digits(s),
{
    let t = s.take(k);
    let j = choose|j: int| 0 <= j < t.len() && !spec_is_digit(#[trigger] t[j]);
    assert(t[j] == s[j]);
}

/// A sequence with a non-digit after position `k` is not all digits.
pub proof fn lemma_not_all_digits_skip(s: Seq<char>, k: int)
    requires
        0 <= k <= s.len(),
        !spec_all_digits(s.skip(k)),
    ensures
        !spec_all_digits(s),
{
    let t = s.skip(k);
    let j = choose|j: int| 0 <= j < t.len() && !spec_is_digit(#[trigger] t[j]);
    assert(t[j] == s[j + k]);
}

/// When the integer part is malformed or already past the limit, a valid
/// body's scaled value is past the limit too.
proof fn lemma_body_val_past_limit(body: Seq<char>, f: nat)
    requires
        f <= 7,
        spec_body_valid(body),
        spec_digits_val(spec_int_part(body)) > FIXED_ABS_LIMIT as int,
    ensures
        spec_body_val(body, f) > FIXED_ABS_LIMIT as int,
{
    let ipv = spec_digits_val(spec_int_part(body));
    let fp = spec_frac_part(body);
    let taken: nat = if fp.len() <= f {
        fp.len()
    } else {
        f
    };
    assert(spec_all_digits(fp.take(taken as int))) by {
        assert(forall|j: int| 0 <= j < taken ==> #[trigger] fp.take(taken as int)[j] == fp[j]);
    }
    lemma_digits_val_nonneg(fp.take(taken as int));
    lemma_pow10_pos(f);
    lemma_pow10_pos((f - taken) as nat);
    assert(ipv * spec_pow10(f) >= ipv) by (nonlinear_arith)
        requires
            ipv >= 0,
            spec_pow10(f) >= 1,
    ;
    assert(spec_digits_val(fp.take(taken as int)) * spec_pow10((f - taken) as nat) >= 0)
        by (nonlinear_arith)
        requires
            spec_digits_val(fp.take(taken as int)) >= 0,
            spec_pow10((f - taken) as nat) >= 1,
    ;
}

/// A digit run of at most seven digits stays below the parse limit.
proof fn lemma_short_digits_small(s: Seq<char>)
    requires
        spec_all_digits(s),
        s.len() <= 7,
    ensures
        spec_digits_val(s) < 10_000_000,
{
    lemma_digits_val_bound(s);
    lemma_pow10_le(s.len(), 7nat);
    reveal_with_fuel(spec_pow10, 9);
    assert(spec_pow10(7nat) == 10_000_000);
}

/// Tolerant fixed-point parse, proved against `spec_parse_fixed`.
#[verifier::rlimit(100)]
pub fn parse_fixed(s: &str, f: u32) -> (r: Option<i64>)
    requires
        f <= 7,
    ensures
        match r {
            Some(v) => spec_parse_fixed(s@, f as nat) == Some(v as int) && -FIXED_ABS_LIMIT <= v
                <= FIXED_ABS_LIMIT,
            None => spec_parse_fixed(s@, f as nat) is None,
        },
{
    broadcast use lemma_digits_val_nonneg;

    let n = s.unicode_len();
    if n == 0 {
        return None;
    }
    let c0 = s.get_char(0);
    let neg = c0 == '-';
    let start: usize = if c0 == '-' || c0 == '+' {
        1
    } else {
        0
    };
    let ghost body = if c0 == '-' || c0 == '+' {
        s@.skip(1)
    } else {
        s@
    };
    proof {
        assert(body =~= s@.subrange(start as int, n as int));
    }
    let dot = find_char_from(s, '.', start);
    proof {
        if dot < n {
            lemma_find_at(body, '.', dot - start);
        } else {
            lemma_find_none(body, '.');
        }
        assert(spec_int_part(body) =~= s@.subrange(start as int, dot as int));
        if dot < n {
            assert(spec_frac_part(body) =~= s@.subrange(dot as int + 1, n as int));
        } else {
            assert(spec_frac_part(body) =~= Seq::<char>::empty());
        }
    }
    let fplen: usize = if dot < n {
        n - dot - 1
    } else {
        0
    };
    if dot == start && fplen == 0 {
        return None;
    }
    let ip = match digits_value(s, start, dot, FIXED_ABS_LIMIT) {
        Some(v) => v,
        None => {
            proof {
                if spec_body_valid(body) {
                    lemma_body_val_past_limit(body, f as nat);
                }
            }
            return None;
        },
    };
    let taken: usize = if (f as usize) <= fplen {
        f as usize
    } else {
        fplen
    };
    let mut facc: i64 = 0;
    if dot < n {
        facc = match digits_value(s, dot + 1, dot + 1 + taken, FIXED_ABS_LIMIT) {
            Some(v) => v,
            None => {
                proof {
                    let fp = spec_frac_part(body);
                    let run = s@.subrange(dot as int + 1, dot as int + 1 + taken as int);
                    assert(run =~= fp.take(taken as int));
                    if spec_all_digits(run) {
                        lemma_short_digits_small(run);
                    }
                    lemma_not_all_digits_take(fp, taken as int);
                }
                return None;
            },
        };
        if !all_digits_range(s, dot + 1 + taken, n) {
            proof {
                let fp = spec_frac_part(body);
                assert(s@.subrange(dot as int + 1 + taken as int, n as int) =~= fp.skip(
                    taken as int,
                ));
                lemma_not_all_digits_skip(fp, taken as int);
            }
            return None;
        }
        proof {
            let fp = spec_frac_part(body);
            assert(s@.subrange(dot as int + 1, dot as int + 1 + taken as int) =~= fp.take(
                taken as int,
            ));
            assert(s@.subrange(dot as int + 1 + taken as int, n as int) =~= fp.skip(taken as int));
            lemma_all_digits_split(fp, taken as int);
        }
    }
    proof {
        lemma_body_val_formula(body, f as nat, taken as nat);
        assert(spec_body_valid(body));
    }
    match combine_scaled(ip, facc, f, taken as u32) {
        Some(m) => {
            if neg {
                Some(-m)
            } else {
                Some(m)
            }
        },
        None => None,
    }
}

/// Unfolds the scaled-value formula of a body into its two products.
proof fn lemma_body_val_formula(body: Seq<char>, f: nat, taken: nat)
    requires
        taken == if spec_frac_part(body).len() <= f {
            spec_frac_part(body).len()
        } else {
            f
        },
    ensures
        spec_body_val(body, f) == spec_digits_val(spec_int_part(body)) * spec_pow10(f)
            + spec_digits_val(spec_frac_part(body).take(taken as int)) * spec_pow10(
            (f - taken) as nat,
        ),
{
}

/// Combines the integer and fractional digit values into one scaled value,
/// or reports that it passes the parse limit.
fn combine_scaled(ip: i64, facc: i64, f: u32, taken: u32) -> (r: Option<i64>)
    requires
        0 <= ip <= FIXED_ABS_LIMIT,
        0 <= facc <= FIXED_ABS_LIMIT,
        taken <= f <= 7,
    ensures
        match r {
            Some(m) => m as int == ip * spec_pow10(f as nat) + facc * spec_pow10(
                (f - taken) as nat,
            ) && 0 <= m <= FIXED_ABS_LIMIT,
            None => ip * spec_pow10(f as nat) + facc * spec_pow10((f - taken) as nat)
                > FIXED_ABS_LIMIT as int,
        },
{
    let p10f = pow10_i64(f);
    let p10rem = pow10_i64(f - taken);
    proof {
        lemma_pow10_le(f as nat, 7nat);
        lemma_pow10_le((f - taken) as nat, 7nat);
        reveal_with_fuel(spec_pow10, 9);
        assert(spec_pow10(7nat) == 10_000_000);
        assert(0 <= (ip as int) * (p10f as int) <= 1_000_000_000_000_000int * 10_000_000int)
            by (nonlinear_arith)
            requires
                0 <= ip <= 1_000_000_000_000_000,
                1 <= p10f <= 10_000_000,
        ;
        assert(0 <= (facc as int) * (p10rem as int) <= 1_000_000_000_000_000int * 10_000_000int)
            by (nonlinear_arith)
            requires
                0 <= facc <= 1_000_000_000_000_000,
                1 <= p10rem <= 10_000_000,
        ;
    }
    let m128: i128 = (ip as i128) * (p10f as i128) + (facc as i128) * (p10rem as i128);
    if m128 > FIXED_ABS_LIMIT as i128 {
        return None;
    }
    Some(m128 as i64)
}

/// The character of one decimal digit.
pub open spec fn spec_digit_char(d: int) -> char {
    ((48 + d) as u8) as char
}

/// Decimal digit string of a nonnegative integer, most significant first.
pub open spec fn spec_udigits(n: int) -> Seq<char>
    decreases n,
{
    if n < 10 {
        seq![spec_digit_char(n)]
    } else {
        spec_udigits(n / 10).push(spec_digit_char(n % 10))
    }
}

/// Digits of `v` padded with leading zeros to exactly `width` digits.
pub open spec fn spec_padded(v: int, width: nat) -> Seq<char>
    decreases width,
{
    if width == 0 {
        Seq::empty()
    } else {
        spec_padded(v / 10, (width - 1) as nat).push(spec_digit_char(v % 10))
    }
}

/// Fractional digits of width `width` with trailing zeros removed.
pub open spec fn spec_frac_trimmed(v: int, width: nat) -> Seq<char>
    decreases width,
{
    if width == 0 {
        Seq::empty()
    } else if v % 10 == 0 {
        spec_frac_trimmed(v / 10, (width - 1) as nat)
    } else {
        spec_padded(v, width)
    }
}

/// Decimal text of a scaled integer with `f` fractional digits; trailing
/// fractional zeros are trimmed and an all-zero fraction is dropped, the
/// way the target tool's writers print whole numbers bare.
pub open spec fn spec_fmt_fixed(v: int, f: nat) -> Seq<char> {
    let m = if v < 0 {
        -v
    } else {
        v
    };
    let ip = m / spec_pow10(f);
    let fp = m % spec_pow10(f);
    let sign: Seq<char> = if v < 0 {
        seq!['-']
    } else {
        Seq::empty()
    };
    if fp == 0 {
        sign + spec_udigits(ip)
    } else {
        sign + spec_udigits(ip) + seq!['.'] + spec_frac_trimmed(fp, f)
    }
}

/// Decimal text of a scaled integer with exactly `f` fractional digits.
pub open spec fn spec_fmt_fixed_pad(v: int, f: nat) -> Seq<char> {
    let m = if v < 0 {
        -v
    } else {
        v
    };
    let ip = m / spec_pow10(f);
    let fp = m % spec_pow10(f);
    let sign: Seq<char> = if v < 0 {
        seq!['-']
    } else {
        Seq::empty()
    };
    sign + spec_udigits(ip) + seq!['.'] + spec_padded(fp, f)
}

/// The single-character string of one decimal digit.
pub fn digit_str(d: i64) -> (r: &'static str)
    requires
        0 <= d <= 9,
    ensures
        r@ == seq![spec_digit_char(d as int)],
{
    proof {
        reveal_strlit("0");
        reveal_strlit("1");
        reveal_strlit("2");
        reveal_strlit("3");
        reveal_strlit("4");
        reveal_strlit("5");
        reveal_strlit("6");
        reveal_strlit("7");
        reveal_strlit("8");
        reveal_strlit("9");
    }
    let r: &'static str = if d == 0 {
        "0"
    } else if d == 1 {
        "1"
    } else if d == 2 {
        "2"
    } else if d == 3 {
        "3"
    } else if d == 4 {
        "4"
    } else if d == 5 {
        "5"
    } else if d == 6 {
        "6"
    } else if d == 7 {
        "7"
    } else if d == 8 {
        "8"
    } else {
        "9"
    };
    proof {
        assert(r@ =~= seq![spec_digit_char(d as int)]);
    }
    r
}

/// Decimal text of a nonnegative integer.
pub fn fmt_nonneg(n: i64) -> (r: String)
    requires
        0 <= n,
    ensures
        r@ == spec_udigits(n as int),
    decreases n,
{
    if n < 10 {
        String::from_str(digit_str(n))
    } else {
        let mut s = fmt_nonneg(n / 10);
        s.append(digit_str(n % 10));
        proof {
            assert(s@ =~= spec_udigits((n / 10) as int).push(spec_digit_char((n % 10) as int)));
        }
        s
    }
}

/// Decimal text of an index-sized integer.
pub fn fmt_usize(n: usize) -> (r: String)
    ensures
        r@ == spec_udigits(n as int),
    decreases n,
{
    if n < 10 {
        String::from_str(digit_str((n % 10) as i64))
    } else {
        let mut s = fmt_usize(n / 10);
        s.append(digit_str((n % 10) as i64));
        proof {
            assert(s@ =~= spec_udigits((n / 10) as int).push(spec_digit_char((n % 10) as int)));
        }
        s
    }
}

/// Fractional digits padded to `width`, as text.
fn fmt_padded(v: i64, width: u32) -> (r: String)
    requires
        0 <= v,
    ensures
        r@ == spec_padded(v as int, width as nat),
    decreases width,
{
    if width == 0 {
        String::new()
    } else {
        let mut s = fmt_padded(v / 10, width - 1);
        s.append(digit_str(v % 10));
        proof {
            assert(s@ =~= spec_padded((v / 10) as int, (width - 1) as nat).push(
                spec_digit_char((v % 10) as int),
            ));
        }
        s
    }
}

/// Fractional digits with trailing zeros trimmed, as text.
fn fmt_frac_trimmed(v: i64, width: u32) -> (r: String)
    requires
        0 <= v,
    ensures
        r@ == spec_frac_trimmed(v as int, width as nat),
    decreases width,
{
    if width == 0 {
        String::new()
    } else if v % 10 == 0 {
        fmt_frac_trimmed(v / 10, width - 1)
    } else {
        fmt_padded(v, width)
    }
}

/// Formats a scaled integer as decimal text with up to `f` fractional
/// digits, trimming trailing fractional zeros.
pub fn fmt_fixed(v: i64, f: u32) -> (r: String)
    requires
        f <= 7,
        v > i64::MIN,
    ensures
        r@ == spec_fmt_fixed(v as int, f as nat),
{
    let m = if v < 0 {
        -v
    } else {
        v
    };
    let p = pow10_i64(f);
    let ip = m / p;
    let fp = m % p;
    let mut s = if v < 0 {
        String::from_str("-")
    } else {
        String::new()
    };
    proof {
        reveal_strlit("-");
        if v < 0 {
            assert(s@ =~= seq!['-']);
        }
    }
    let ipart = fmt_nonneg(ip);
    s.append(ipart.as_str());
    if fp > 0 {
        s.append(".");
        proof {
            reveal_strlit(".");
            assert("."@ =~= seq!['.']);
        }
        let fr = fmt_frac_trimmed(fp, f);
        s.append(fr.as_str());
    }
    s
}

/// Formats a scaled integer as decimal text with exactly `f` fractional
/// digits, the fixed-precision form the mesh writer uses.
pub fn fmt_fixed_pad(v: i64, f: u32) -> (r: String)
    requires
        f <= 7,
        v > i64::MIN,
    ensures
        r@ == spec_fmt_fixed_pad(v as int, f as nat),
{
    let m = if v < 0 {
        -v
    } else {
        v
    };
    let p = pow10_i64(f);
    let ip = m / p;
    let fp = m % p;
    let mut s = if v < 0 {
        String::from_str("-")
    } else {
        String::new()
    };
    proof {
        reveal_strlit("-");
        if v < 0 {
            assert(s@ =~= seq!['-']);
        }
    }
    let ipart = fmt_nonneg(ip);
    s.append(ipart.as_str());
    s.append(".");
    proof {
        reveal_strlit(".");
        assert("."@ =~= seq!['.']);
    }
    let fr = fmt_padded(fp, f);
    s.append(fr.as_str());
    s
}

/// The parsed fixed-point value, defaulting to zero: how the tolerant
/// grammar treats every optional or malformed numeric field.
pub open spec fn spec_fixed_or_zero(s: Seq<char>, f: nat) -> int {
    match spec_parse_fixed(s, f) {
        Some(v) => v,
        None => 0,
    }
}

/// Parses a fixed-point field, defaulting to zero when malformed.
pub fn parse_fixed_or_zero(s: &str, f: u32) -> (r: i64)
    requires
        f <= 7,
    ensures
        r as int == spec_fixed_or_zero(s@, f as nat),
        -FIXED_ABS_LIMIT <= r <= FIXED_ABS_LIMIT,
{
    match parse_fixed(s, f) {
        Some(v) => v,
        None => 0,
    }
}

/// A well-formed body's scaled value is nonnegative.
proof fn lemma_body_val_nonneg(body: Seq<char>, f: nat)
    requires
        spec_body_valid(body),
    ensures
        spec_body_val(body, f) >= 0,
{
    let ipv = spec_digits_val(spec_int_part(body));
    let fp = spec_frac_part(body);
    let taken: nat = if fp.len() <= f {
        fp.len()
    } else {
        f
    };
    lemma_digits_val_nonneg(spec_int_part(body));
    assert(spec_all_digits(fp.take(taken as int))) by {
        assert(forall|j: int| 0 <= j < taken ==> #[trigger] fp.take(taken as int)[j] == fp[j]);
    }
    lemma_digits_val_nonneg(fp.take(taken as int));
    lemma_pow10_pos(f);
    lemma_pow10_pos((f - taken) as nat);
    assert(ipv * spec_pow10(f) >= 0) by (nonlinear_arith)
        requires
            ipv >= 0,
            spec_pow10(f) >= 1,
    ;
    assert(spec_digits_val(fp.take(taken as int)) * spec_pow10((f - taken) as nat) >= 0)
        by (nonlinear_arith)
        requires
            spec_digits_val(fp.take(taken as int)) >= 0,
            spec_pow10((f - taken) as nat) >= 1,
    ;
}

/// Every fixed-point parse stays within the parse limit.
pub broadcast proof fn lemma_fixed_or_zero_bound(s: Seq<char>, f: nat)
    ensures
        -(FIXED_ABS_LIMIT as int) <= #[trigger] spec_fixed_or_zero(s, f) <= FIXED_ABS_LIMIT as int,
{
    if s.len() > 0 {
        let body = if s[0] == '-' || s[0] == '+' {
            s.skip(1)
        } else {
            s
        };
        if spec_body_valid(body) {
            lemma_body_val_nonneg(body, f);
        }
    }
}

/// Every integer parse stays within the integer limit.
pub broadcast proof fn lemma_int_or_zero_bound(s: Seq<char>)
    ensures
        -(INT_ABS_LIMIT as int) <= #[trigger] spec_int_or_zero(s) <= INT_ABS_LIMIT as int,
{
    broadcast use lemma_digits_val_nonneg;

    if s.len() > 0 {
        let body = if s[0] == '-' || s[0] == '+' {
            s.skip(1)
        } else {
            s
        };
        if spec_all_digits(body) && body.len() > 0 {
            lemma_digits_val_nonneg(body);
        }
    }
}

/// Every defaulted fixed-point parse stays within the wider of the parse
/// limit and its default.
pub broadcast proof fn lemma_fixed_or_bound(s: Seq<char>, f: nat, d: int)
    requires
        -(FIXED_ABS_LIMIT as int) <= d <= FIXED_ABS_LIMIT as int,
    ensures
        -(FIXED_ABS_LIMIT as int) <= #[trigger] spec_fixed_or(s, f, d) <= FIXED_ABS_LIMIT as int,
{
    if s.len() > 0 {
        let body = if s[0] == '-' || s[0] == '+' {
            s.skip(1)
        } else {
            s
        };
        if spec_body_valid(body) {
            lemma_body_val_nonneg(body, f);
        }
    }
}

/// The parsed fixed-point value, defaulting to `d` when malformed.
pub open spec fn spec_fixed_or(s: Seq<char>, f: nat, d: int) -> int {
    match spec_parse_fixed(s, f) {
        Some(v) => v,
        None => d,
    }
}

/// Parses a fixed-point field, defaulting to `d` when malformed.
pub fn parse_fixed_or(s: &str, f: u32, d: i64) -> (r: i64)
    requires
        f <= 7,
        -FIXED_ABS_LIMIT <= d <= FIXED_ABS_LIMIT,
    ensures
        r as int == spec_fixed_or(s@, f as nat, d as int),
        -FIXED_ABS_LIMIT <= r <= FIXED_ABS_LIMIT,
{
    match parse_fixed(s, f) {
        Some(v) => v,
        None => d,
    }
}

/// The parsed integer value, defaulting to zero.
pub open spec fn spec_int_or_zero(s: Seq<char>) -> int {
    match spec_parse_int(s) {
        Some(v) => v,
        None => 0,
    }
}

/// Parses an integer field, defaulting to zero when malformed.
pub fn parse_int_or_zero(s: &str) -> (r: i64)
    ensures
        r as int == spec_int_or_zero(s@),
        -INT_ABS_LIMIT <= r <= INT_ABS_LIMIT,
{
    match parse_int(s) {
        Some(v) => v,
        None => 0,
    }
}

} // verus!
