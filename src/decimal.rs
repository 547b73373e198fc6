use vstd::prelude::*;

use crate::units::SCALE;

verus! {

pub open spec fn is_digit(c: char) -> bool {
    '0' <= c && c <= '9'
}

pub open spec fn digit_val(c: char) -> int {
    c as int - '0' as int
}

pub open spec fn all_digits(s: Seq<char>) -> bool {
    forall|i: int| 0 <= i < s.len() ==> is_digit(#[trigger] s[i])
}

/// The number that a string of decimal digits spells.
pub open spec fn digits_value(s: Seq<char>) -> int
    decreases s.len(),
{
    if s.len() == 0 {
        0
    } else {
        digits_value(s.drop_last()) * 10 + digit_val(s.last())
    }
}

pub open spec fn pow10(n: nat) -> int
    decreases n,
{
    if n == 0 {
        1
    } else {
        10 * pow10((n - 1) as nat)
    }
}

/// Fixed-point value of `ip.fp`; fraction digits past the sixth are dropped.
pub open spec fn fixed_value(ip: Seq<char>, fp: Seq<char>) -> int {
    let k = if fp.len() < 6 {
        fp.len()
    } else {
        6
    };
    digits_value(ip) * SCALE + digits_value(fp.subrange(0, k as int)) * pow10((6 - k) as nat)
}

/// A dot at `d` with digits before it (at least one) and only digits after it.
pub open spec fn dot_at(s: Seq<char>, d: int) -> bool {
    &&& 0 < d < s.len()
    &&& s[d] == '.'
    &&& all_digits(s.subrange(0, d))
    &&& all_digits(s.subrange(d + 1, s.len() as int))
}

/// Fixed-point value of an unsigned decimal such as "12" or "0.25".
pub open spec fn decimal_of(s: Seq<char>) -> Option<int> {
    if all_digits(s) {
        if s.len() > 0 {
            Some(digits_value(s) * SCALE)
        } else {
            None
        }
    } else if exists|d: int| dot_at(s, d) {
        let d = choose|d: int| dot_at(s, d);
        Some(fixed_value(s.subrange(0, d), s.subrange(d + 1, s.len() as int)))
    } else {
        None
    }
}

/// Fixed-point value of a decimal with an optional leading minus sign.
pub open spec fn signed_decimal_of(s: Seq<char>) -> Option<int> {
    if s.len() > 0 && s[0] == '-' {
        match decimal_of(s.subrange(1, s.len() as int)) {
            Some(v) => Some(-v),
            None => None,
        }
    } else {
        decimal_of(s)
    }
}

proof fn lemma_digits_nonneg(s: Seq<char>)
    requires
        all_digits(s),
    ensures
        digits_value(s) >= 0,
    decreases s.len(),
{
    if s.len() > 0 {
        assert(is_digit(s[s.len() - 1]));
        assert(all_digits(s.drop_last())) by {
            assert forall|i: int| 0 <= i < s.drop_last().len() implies is_digit(#[trigger] s.drop_last()[i]) by {
                assert(s.drop_last()[i] == s[i]);
            }
        }
        lemma_digits_nonneg(s.drop_last());
    }
}

/// A longer run of digits is worth at least as much as its prefix.
proof fn lemma_digits_prefix(s: Seq<char>, k: int)
    requires
        all_digits(s),
        0 <= k <= s.len(),
    ensures
        digits_value(s.subrange(0, k)) <= digits_value(s),
    decreases s.len(),
{
    if k == s.len() {
        assert(s.subrange(0, k) =~= s);
    } else {
        let d = s.drop_last();
        assert(all_digits(d)) by {
            assert forall|i: int| 0 <= i < d.len() implies is_digit(#[trigger] d[i]) by {
                assert(d[i] == s[i]);
            }
        }
        assert(s.subrange(0, k) =~= d.subrange(0, k));
        lemma_digits_prefix(d, k);
        lemma_digits_nonneg(d);
        assert(is_digit(s[s.len() - 1]));
    }
}

proof fn lemma_dot_unique(s: Seq<char>, d: int, e: int)
    requires
        dot_at(s, d),
        dot_at(s, e),
    ensures
        d == e,
{
    if d < e {
        assert(s.subrange(0, e)[d] == s[d]);
    } else if e < d {
        assert(s.subrange(0, d)[e] == s[e]);
    }
}

fn char_digit(c: char) -> (r: Option<u32>)
    ensures
        r is Some <==> is_digit(c),
        r matches Some(v) ==> v == digit_val(c) && v <= 9,
{
    if c >= '0' && c <= '9' {
        Some((c as u32) - ('0' as u32))
    } else {
        None
    }
}

/// Reads an unsigned decimal into fixed-point. `None` when the text is not a
/// decimal or its value does not fit.
pub fn parse_fixed(s: &str) -> (r: Option<u64>)
    ensures
        r matches Some(v) ==> decimal_of(s@) == Some(v as int),
        r is None ==> (decimal_of(s@) matches Some(v) ==> v > u64::MAX),
{
    let n = s.unicode_len();
    let mut i: usize = 0;
    let mut ip: u128 = 0;
    let mut done = false;
    while i < n && !done
        invariant
            i <= n,
            n == s@.len(),
            done ==> i < n && !is_digit(s@[i as int]),
            all_digits(s@.subrange(0, i as int)),
            ip == digits_value(s@.subrange(0, i as int)),
            ip <= u64::MAX,
        decreases n - i + (if done { 0int } else { 1int }),
    {
        let c = s.get_char(i);
        let d = match char_digit(c) {
            Some(d) => d,
            None => {
                done = true;
                continue;
            },
        };
        proof {
            assert(s@.subrange(0, i + 1).drop_last() =~= s@.subrange(0, i as int));
            assert(all_digits(s@.subrange(0, i + 1))) by {
                assert forall|j: int| 0 <= j < i + 1 implies is_digit(#[trigger] s@.subrange(0, i + 1)[j]) by {
                    if j < i {
                        assert(s@.subrange(0, i + 1)[j] == s@.subrange(0, i as int)[j]);
                    }
                }
            }
        }
        let next = ip * 10 + d as u128;
        if next > u64::MAX as u128 {
            proof {
                let p = s@.subrange(0, i + 1);
                if all_digits(s@) {
                    lemma_digits_prefix(s@, i + 1);
                }
                if !all_digits(s@) && exists|e: int| dot_at(s@, e) {
                    let e = choose|e: int| dot_at(s@, e);
                    if e <= i {
                        assert(s@[e] == p[e]);
                    }
                    let ipart = s@.subrange(0, e);
                    assert(ipart.subrange(0, i + 1) =~= p);
                    lemma_digits_prefix(ipart, i + 1);
                    let fpart = s@.subrange(e + 1, s@.len() as int);
                    let k: int = if fpart.len() < 6 { fpart.len() as int } else { 6 };
                    assert(all_digits(fpart.subrange(0, k))) by {
                        assert forall|j: int| 0 <= j < k implies is_digit(#[trigger] fpart.subrange(0, k)[j]) by {
                            assert(fpart.subrange(0, k)[j] == fpart[j]);
                        }
                    }
                    lemma_digits_nonneg(fpart.subrange(0, k));
                    lemma_pow10_pos((6 - k) as nat);
                    vstd::arithmetic::mul::lemma_mul_nonnegative(digits_value(fpart.subrange(0, k)), pow10((6 - k) as nat));
                }
            }
            return None;
        }
        ip = next;
        i = i + 1;
    }
    if i == 0 {
        proof {
            if n > 0 {
                assert(!is_digit(s@[0]));
                if exists|e: int| dot_at(s@, e) {
                    let e = choose|e: int| dot_at(s@, e);
                    assert(s@.subrange(0, e)[0] == s@[0]);
                }
            }
        }
        return None;
    }
    if i == n {
        proof {
            assert(s@.subrange(0, n as int) =~= s@);
        }
        let v = ip * (SCALE as u128);
        if v > u64::MAX as u128 {
            return None;
        }
        return Some(v as u64);
    }
    let c = s.get_char(i);
    proof {
        assert(!all_digits(s@)) by {
            if c != '.' {
            }
            assert(!is_digit(s@[i as int]));
        }
    }
    if c != '.' {
        proof {
            if exists|e: int| dot_at(s@, e) {
                let e = choose|e: int| dot_at(s@, e);
                if e < i {
                    assert(s@.subrange(0, i as int)[e] == s@[e]);
                } else if e > i {
                    assert(s@.subrange(0, e)[i as int] == s@[i as int]);
                }
            }
        }
        return None;
    }
    let ghost fstart: int = i + 1;
    let mut j: usize = i + 1;
    let mut fv: u128 = 0;
    let mut taken: usize = 0;
    while j < n
        invariant
            i < n,
            fstart == i + 1,
            fstart <= j <= n,
            n == s@.len(),
            s@[i as int] == '.',
            ip == digits_value(s@.subrange(0, i as int)),
            ip <= u64::MAX,
            all_digits(s@.subrange(0, i as int)),
            taken <= 6,
            taken == (if j - fstart < 6 { j - fstart } else { 6 }),
            all_digits(s@.subrange(fstart, j as int)),
            fv == digits_value(s@.subrange(fstart, fstart + taken)),
            0 <= fv < pow10(taken as nat),
        decreases n - j,
    {
        let c = s.get_char(j);
        let d = match char_digit(c) {
            Some(d) => d,
            None => {
                proof {
                    assert(s@[i as int] == '.');
                    if exists|e: int| dot_at(s@, e) {
                        let e = choose|e: int| dot_at(s@, e);
                        if e < i {
                            assert(s@.subrange(0, i as int)[e] == s@[e]);
                        } else if e > i {
                            assert(s@.subrange(0, e)[i as int] == s@[i as int]);
                        } else {
                            assert(s@.subrange(e + 1, s@.len() as int)[j - e - 1] == s@[j as int]);
                        }
                    }
                }
                return None;
            },
        };
        proof {
            assert(all_digits(s@.subrange(fstart, j + 1))) by {
                assert forall|t: int| 0 <= t < j + 1 - fstart implies is_digit(#[trigger] s@.subrange(fstart, j + 1)[t]) by {
                    if t < j - fstart {
                        assert(s@.subrange(fstart, j + 1)[t] == s@.subrange(fstart, j as int)[t]);
                    }
                }
            }
        }
        if taken < 6 {
            proof {
                reveal_with_fuel(pow10, 7);
                assert(pow10(taken as nat) <= 100_000);
                assert(s@.subrange(fstart, fstart + taken + 1).drop_last() =~= s@.subrange(fstart, fstart + taken));
                assert(taken == j - fstart);
            }
            fv = fv * 10 + d as u128;
            taken = taken + 1;
        }
        j = j + 1;
    }
    let ghost k0 = taken;
    proof {
        assert(pow10(0) == 1);
        assert(fv * pow10(0) == fv);
        assert((taken - k0) as nat == 0);
    }
    let mut f: u128 = fv;
    let mut k: usize = taken;
    while k < 6
        invariant
            k0 <= k <= 6,
            f == fv * pow10((k - k0) as nat),
            0 <= f < pow10(k as nat),
        decreases 6 - k,
    {
        proof {
            reveal_with_fuel(pow10, 7);
            assert(pow10(k as nat) <= 100_000);
            assert(pow10((k + 1 - k0) as nat) == 10 * pow10((k - k0) as nat));
            assert(fv * (10 * pow10((k - k0) as nat)) == 10 * (fv * pow10((k - k0) as nat))) by (nonlinear_arith);
        }
        f = f * 10;
        k = k + 1;
    }
    proof {
        reveal_with_fuel(pow10, 7);
        assert(pow10(6) == 1_000_000);
        let ipart = s@.subrange(0, i as int);
        let fpart = s@.subrange(fstart, n as int);
        assert(dot_at(s@, i as int));
        let e = choose|e: int| dot_at(s@, e);
        lemma_dot_unique(s@, e, i as int);
        assert(fpart.subrange(0, taken as int) =~= s@.subrange(fstart, fstart + taken));
        assert(j == n);
        assert(k == 6);
        assert(f == fv * pow10((6 - taken) as nat));
        assert(e == i);
        assert(decimal_of(s@) == Some(fixed_value(ipart, fpart)));
        assert(fixed_value(ipart, fpart) == ip * SCALE + f);
    }
    let total = ip * (SCALE as u128) + f;
    if total > u64::MAX as u128 {
        return None;
    }
    Some(total as u64)
}

proof fn lemma_pow10_pos(n: nat)
    ensures
        pow10(n) >= 1,
    decreases n,
{
    if n > 0 {
        lemma_pow10_pos((n - 1) as nat);
    }
}

/// Reads a decimal with an optional leading minus sign into fixed-point.
pub fn parse_signed_fixed(s: &str) -> (r: Option<i64>)
    ensures
        r matches Some(v) ==> signed_decimal_of(s@) == Some(v as int),
        r is None ==> (signed_decimal_of(s@) matches Some(v) ==> v > i64::MAX || v < i64::MIN),
{
    let n = s.unicode_len();
    if n > 0 && s.get_char(0) == '-' {
        let rest = s.substring_char(1, n);
        match parse_fixed(rest) {
            Some(v) => {
                if v > 9_223_372_036_854_775_808u64 {
                    return None;
                }
                if v == 9_223_372_036_854_775_808u64 {
                    return Some(i64::MIN);
                }
                Some(-(v as i64))
            },
            None => None,
        }
    } else {
        match parse_fixed(s) {
            Some(v) => {
                if v > i64::MAX as u64 {
                    return None;
                }
                Some(v as i64)
            },
            None => None,
        }
    }
}

} // verus!
