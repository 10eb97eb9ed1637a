//! Fixed-point decimal amounts: every price, quantity and percentage is a
//! `u64` count of units, with `SCALE` units to one whole.

use vstd::prelude::*;
use vstd::string::StringSliceAdditionalSpecFns;

verus! {

/// Units in one whole: amounts carry eight decimals.
pub const SCALE: u64 = 100_000_000;

/// Decimal places carried by an amount.
pub const DECIMALS: u64 = 8;

pub open spec fn pow10(n: nat) -> nat
    decreases n,
{
    if n == 0 {
        1
    } else {
        10 * pow10((n - 1) as nat)
    }
}

pub open spec fn is_digit(c: u8) -> bool {
    48 <= c <= 57
}

pub open spec fn all_digits(s: Seq<u8>) -> bool {
    forall|i: int| 0 <= i < s.len() ==> is_digit(#[trigger] s[i])
}

/// The value of a run of decimal digits.
pub open spec fn digits_value(s: Seq<u8>) -> nat
    decreases s.len(),
{
    if s.len() == 0 {
        0
    } else {
        digits_value(s.drop_last()) * 10 + (s.last() - 48) as nat
    }
}

/// Units of a fraction's digits: the first eight count, the rest are cut off.
pub open spec fn fraction_units(f: Seq<u8>) -> nat {
    let c: nat = if f.len() <= DECIMALS {
        f.len()
    } else {
        DECIMALS as nat
    };
    digits_value(f.take(c as int)) * pow10((DECIMALS - c) as nat)
}

/// `b` is a numeral `digits` or `digits.digits` whose whole part ends at `k`.
pub open spec fn decimal_split(b: Seq<u8>, k: int) -> bool {
    &&& 0 < k <= b.len()
    &&& all_digits(b.take(k))
    &&& (k == b.len() || (b[k] == 46u8 && k + 1 < b.len() && all_digits(b.skip(k + 1))))
}

pub open spec fn split_value(b: Seq<u8>, k: int) -> nat {
    let frac: nat = if k == b.len() {
        0
    } else {
        fraction_units(b.skip(k + 1))
    };
    digits_value(b.take(k)) * (SCALE as nat) + frac
}

/// The number of units a decimal numeral stands for, if `b` is one.
pub open spec fn decimal_units(b: Seq<u8>) -> Option<nat> {
    if exists|k: int| decimal_split(b, k) {
        Some(split_value(b, choose|k: int| decimal_split(b, k)))
    } else {
        None
    }
}

/// What `parse_amount` returns for the bytes `b`.
pub open spec fn amount_of(b: Seq<u8>) -> Option<u64> {
    match decimal_units(b) {
        Some(v) => if v <= u64::MAX {
            Some(v as u64)
        } else {
            None
        },
        None => None,
    }
}

proof fn lemma_split_unique(b: Seq<u8>, k1: int, k2: int)
    requires
        decimal_split(b, k1),
        decimal_split(b, k2),
    ensures
        k1 == k2,
{
    if k1 < k2 {
        assert(b.take(k2)[k1] == b[k1]);
    } else if k2 < k1 {
        assert(b.take(k1)[k2] == b[k2]);
    }
}

proof fn lemma_digits_step(s: Seq<u8>, i: int)
    requires
        0 <= i < s.len(),
    ensures
        digits_value(s.take(i + 1)) == digits_value(s.take(i)) * 10 + (s[i] - 48) as nat,
{
    assert(s.take(i + 1).drop_last() =~= s.take(i));
}

proof fn lemma_digits_prefix_le(s: Seq<u8>, i: int)
    requires
        0 <= i <= s.len(),
    ensures
        digits_value(s.take(i)) <= digits_value(s),
    decreases s.len(),
{
    if i == s.len() {
        assert(s.take(i) =~= s);
    } else {
        lemma_digits_prefix_le(s.drop_last(), i);
        assert(s.drop_last().take(i) =~= s.take(i));
    }
}

/// Reads a decimal numeral ("12", "0.00100000") as a count of units.
/// Digits past the eighth decimal place are cut off; signs, exponents and
/// any other characters are refused, as is a value that does not fit a `u64`.
pub fn parse_amount(s: &str) -> (r: Option<u64>)
    ensures
        r == amount_of(s.spec_bytes()),
{
    let b = s.as_bytes();
    let ghost bs = s.spec_bytes();
    let n = b.len();
    let mut k: usize = 0;
    while k < n && b[k] >= 48u8 && b[k] <= 57u8
        invariant
            b@ == bs,
            bs == s.spec_bytes(),
            n == bs.len(),
            k <= n,
            all_digits(bs.take(k as int)),
        decreases n - k,
    {
        assert(bs.take(k as int + 1)[k as int] == bs[k as int]);
        assert forall|i: int| 0 <= i < k + 1 implies is_digit(#[trigger] bs.take(k as int + 1)[i]) by {
            if i < k {
                assert(bs.take(k as int + 1)[i] == bs.take(k as int)[i]);
            }
        }
        k = k + 1;
    }
    // Syntax: a non-empty whole part, then nothing or a dot and digits.
    if k == 0 {
        proof {
            assert forall|j: int| !decimal_split(bs, j) by {
                if decimal_split(bs, j) {
                    assert(bs.take(j)[0] == bs[0]);
                }
            }
        }
        return None;
    }
    if k < n {
        if b[k] != 46u8 || k + 1 == n {
            proof {
                assert forall|j: int| !decimal_split(bs, j) by {
                    if decimal_split(bs, j) {
                        if j > k {
                            assert(bs.take(j)[k as int] == bs[k as int]);
                        } else if j < k {
                            assert(bs.take(k as int)[j] == bs[j]);
                        }
                    }
                }
            }
            return None;
        }
        let mut j: usize = k + 1;
        while j < n
            invariant
                b@ == bs,
                bs == s.spec_bytes(),
                n == bs.len(),
                k + 1 <= j <= n,
                k < n,
                bs[k as int] == 46u8,
                all_digits(bs.take(k as int)),
                forall|i: int| k + 1 <= i < j ==> is_digit(#[trigger] bs[i]),
            decreases n - j,
        {
            if b[j] < 48u8 || b[j] > 57u8 {
                proof {
                    assert forall|m: int| !decimal_split(bs, m) by {
                        if decimal_split(bs, m) {
                            if m > k {
                                assert(bs.take(m)[k as int] == bs[k as int]);
                            } else if m < k {
                                assert(bs.take(k as int)[m] == bs[m]);
                            } else {
                                assert(bs.skip(k + 1)[j - k - 1] == bs[j as int]);
                            }
                        }
                    }
                }
                return None;
            }
            j = j + 1;
        }
        proof {
            assert forall|i: int| 0 <= i < bs.skip(k + 1).len() implies is_digit(
                #[trigger] bs.skip(k + 1)[i],
            ) by {
                assert(bs.skip(k + 1)[i] == bs[k + 1 + i]);
            }
        }
    }
    proof {
        assert(decimal_split(bs, k as int));
        let kk = choose|m: int| decimal_split(bs, m);
        lemma_split_unique(bs, k as int, kk);
    }
    // Value of the whole part.
    let ghost whole_digits = bs.take(k as int);
    let mut whole: u64 = 0;
    let mut i: usize = 0;
    while i < k
        invariant
            b@ == bs,
            bs == s.spec_bytes(),
            n == bs.len(),
            0 < k <= n,
            i <= k,
            whole_digits == bs.take(k as int),
            all_digits(whole_digits),
            whole as nat == digits_value(whole_digits.take(i as int)),
            whole as nat * SCALE <= u64::MAX,
            decimal_units(bs) == Some(split_value(bs, k as int)),
        decreases k - i,
    {
        assert(whole_digits[i as int] == bs[i as int]);
        assert(is_digit(whole_digits[i as int]));
        proof {
            lemma_digits_step(whole_digits, i as int);
        }
        let d = (b[i] - 48u8) as u64;
        if whole > (u64::MAX / SCALE - d) / 10 {
            proof {
                lemma_digits_prefix_le(whole_digits, i as int + 1);
                assert(whole_digits.take(k as int) =~= whole_digits);
                let big = whole * 10 + d;
                assert(big > 184467440737);
                let dv = digits_value(whole_digits);
                assert(dv >= big);
                assert(dv * SCALE > u64::MAX) by (nonlinear_arith)
                    requires
                        dv >= 184467440738,
                ;
                assert(split_value(bs, k as int) >= dv * SCALE);
            }
            return None;
        }
        proof {
            assert(whole * 10 + d <= 184467440737);
            assert((whole * 10 + d) * SCALE <= u64::MAX) by (nonlinear_arith)
                requires
                    whole * 10 + d <= 184467440737,
            ;
        }
        whole = whole * 10 + d;
        i = i + 1;
    }
    assert(whole_digits.take(k as int) =~= whole_digits);
    let base: u64 = whole * SCALE;
    if k == n {
        return Some(base);
    }
    // Value of the fraction: at most eight digits, padded with zeros.
    let ghost f = bs.skip(k + 1);
    let flen: usize = n - k - 1;
    let c: usize = if flen <= 8 {
        flen
    } else {
        8
    };
    let mut frac: u64 = 0;
    let mut t: usize = 0;
    while t < c
        invariant
            b@ == bs,
            bs == s.spec_bytes(),
            n == bs.len(),
            f == bs.skip(k + 1),
            flen == f.len(),
            c <= 8,
            c <= flen,
            k + 1 + flen == n,
            t <= c,
            all_digits(f),
            frac as nat == digits_value(f.take(t as int)),
            frac < pow10(t as nat),
        decreases c - t,
    {
        assert(f[t as int] == bs[k + 1 + t]);
        assert(is_digit(f[t as int]));
        proof {
            lemma_digits_step(f, t as int);
        }
        let d = (b[k + 1 + t] - 48u8) as u64;
        assert(frac * 10 + d < pow10((t + 1) as nat)) by (nonlinear_arith)
            requires
                frac < pow10(t as nat),
                d <= 9,
                pow10((t + 1) as nat) == 10 * pow10(t as nat),
        ;
        proof {
            lemma_pow10_scale();
            lemma_pow10_mono((t + 1) as nat, 8);
        }
        frac = frac * 10 + d;
        t = t + 1;
    }
    let ghost digits_part = frac as nat;
    assert(pow10((c - c) as nat) == 1);
    assert(digits_part * 1 == digits_part);
    let mut p: usize = c;
    while p < 8
        invariant
            c <= p <= 8,
            frac as nat == digits_part * pow10((p - c) as nat),
            frac < pow10(p as nat),
        decreases 8 - p,
    {
        proof {
            lemma_pow10_scale();
            lemma_pow10_mono((p + 1) as nat, 8);
            assert(digits_part * pow10((p + 1 - c) as nat) == digits_part * pow10((p - c) as nat)
                * 10) by (nonlinear_arith)
                requires
                    pow10((p + 1 - c) as nat) == 10 * pow10((p - c) as nat),
            ;
        }
        frac = frac * 10;
        p = p + 1;
    }
    proof {
        lemma_pow10_scale();
    }
    if base > u64::MAX - frac {
        return None;
    }
    Some(base + frac)
}

proof fn lemma_pow10_scale()
    ensures
        pow10(DECIMALS as nat) == SCALE,
{
    reveal_with_fuel(pow10, 9);
}

proof fn lemma_pow10_mono(a: nat, b: nat)
    requires
        a <= b,
    ensures
        pow10(a) <= pow10(b),
    decreases b,
{
    if a < b {
        lemma_pow10_mono(a, (b - 1) as nat);
    }
}

} // verus!
