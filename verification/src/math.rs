//! Fixed-point arithmetic on `u128` mantissas.
//!
//! Products of two mantissas need up to 256 bits. The one operation that
//! works at that width, `a * b / c`, is delegated to
//! `cosmwasm_bignumber::Uint256`; everything built on it is verified here.
use cosmwasm_bignumber::{Decimal256, Uint256};
use std::str::FromStr;
use vstd::prelude::*;

verus! {

/// Two to the power 64.
pub open spec fn word() -> nat {
    0x1_0000_0000_0000_0000
}

/// The number that four 64-bit words stand for, least significant word first.
pub open spec fn words_value(w: [u64; 4]) -> nat {
    w[0] as nat + word() * (w[1] as nat + word() * (w[2] as nat + word() * (w[3] as nat)))
}

/// `a * b / c`, rounded down; `None` where `c` is zero or the quotient does
/// not fit in 128 bits.
pub open spec fn mul_div_spec(a: nat, b: nat, c: nat) -> Option<u128> {
    if c == 0 || (a * b) / c > u128::MAX {
        None
    } else {
        Some(((a * b) / c) as u128)
    }
}

/// `x / c` rounded up: the quotient gains one unit exactly when the division
/// leaves a remainder.
pub open spec fn div_ceil_spec(x: nat, c: nat) -> nat
    recommends
        c > 0,
{
    if x % c == 0 {
        x / c
    } else {
        x / c + 1
    }
}

/// `a * b / c`, rounded up; `None` where `c` is zero or the rounded quotient
/// does not fit in 128 bits.
pub open spec fn mul_div_ceil_spec(a: nat, b: nat, c: nat) -> Option<u128> {
    if c == 0 || div_ceil_spec(a * b, c) > u128::MAX {
        None
    } else {
        Some(div_ceil_spec(a * b, c) as u128)
    }
}

/// Calls `cosmwasm_bignumber::Uint256::multiply_ratio`, which computes
/// `a * num / denom` in 256-bit arithmetic and rounds down. With 128-bit
/// operands the product cannot overflow; the call panics only on a zero
/// denominator, which `requires` excludes. The result is handed back as the
/// four words of the underlying integer, least significant first.
#[verifier::external_body]
fn multiply_ratio(a: u128, num: u128, denom: u128) -> (w: [u64; 4])
    requires
        denom != 0,
    ensures
        words_value(w) == (a as nat * num as nat) / (denom as nat),
{
    let r = Uint256::from(a).multiply_ratio(Uint256::from(num), Uint256::from(denom));
    (r.0).0
}

/// Two word arrays that stand for the same number are the same array.
proof fn lemma_words_value_injective(x: [u64; 4], y: [u64; 4])
    requires
        words_value(x) == words_value(y),
    ensures
        x[0] == y[0],
        x[1] == y[1],
        x[2] == y[2],
        x[3] == y[3],
{
    let hx: nat = x[1] as nat + word() * (x[2] as nat + word() * (x[3] as nat));
    let hy: nat = y[1] as nat + word() * (y[2] as nat + word() * (y[3] as nat));
    assert(x[0] == y[0] && hx == hy) by {
        lemma_split_unique(x[0] as nat, hx, y[0] as nat, hy);
    }
    let gx: nat = x[2] as nat + word() * (x[3] as nat);
    let gy: nat = y[2] as nat + word() * (y[3] as nat);
    assert(x[1] == y[1] && gx == gy) by {
        lemma_split_unique(x[1] as nat, gx, y[1] as nat, gy);
    }
    assert(x[2] == y[2] && x[3] == y[3]) by {
        lemma_split_unique(x[2] as nat, x[3] as nat, y[2] as nat, y[3] as nat);
    }
}

/// A number has one low word and one remaining high part.
proof fn lemma_split_unique(lo1: nat, hi1: nat, lo2: nat, hi2: nat)
    requires
        lo1 < word(),
        lo2 < word(),
        lo1 + word() * hi1 == lo2 + word() * hi2,
    ensures
        lo1 == lo2,
        hi1 == hi2,
{
    if hi1 < hi2 {
        assert(word() * hi2 >= word() * hi1 + word()) by (nonlinear_arith)
            requires
                hi1 < hi2,
        ;
    } else if hi2 < hi1 {
        assert(word() * hi1 >= word() * hi2 + word()) by (nonlinear_arith)
            requires
                hi2 < hi1,
        ;
    }
}

/// The 128-bit number in the two low words, if the two high words are zero.
fn words_to_u128(w: [u64; 4]) -> (r: Option<u128>)
    ensures
        r == (if words_value(w) > u128::MAX {
            None
        } else {
            Some(words_value(w) as u128)
        }),
{
    if w[2] != 0 || w[3] != 0 {
        assert(words_value(w) > u128::MAX) by {
            let h: nat = w[2] as nat + word() * (w[3] as nat);
            assert(h >= 1);
            assert(word() * (w[1] as nat + word() * h) >= word() * word()) by (nonlinear_arith)
                requires
                    h >= 1,
            ;
        }
        None
    } else {
        let hi: u128 = w[1] as u128;
        let lo: u128 = w[0] as u128;
        assert(word() * (w[2] as nat + word() * (w[3] as nat)) == 0) by (nonlinear_arith)
            requires
                w[2] == 0,
                w[3] == 0,
        ;
        Some(hi * 0x1_0000_0000_0000_0000u128 + lo)
    }
}

/// `a * b / c` rounded down, computed without intermediate overflow.
pub fn mul_div(a: u128, b: u128, c: u128) -> (r: Option<u128>)
    ensures
        r == mul_div_spec(a as nat, b as nat, c as nat),
{
    if c == 0 {
        return None;
    }
    words_to_u128(multiply_ratio(a, b, c))
}

/// `a * b / c` rounded up, computed without intermediate overflow.
pub fn mul_div_ceil(a: u128, b: u128, c: u128) -> (r: Option<u128>)
    ensures
        r == mul_div_ceil_spec(a as nat, b as nat, c as nat),
{
    if c == 0 {
        return None;
    }
    let floor: u128 = match words_to_u128(multiply_ratio(a, b, c)) {
        Some(q) => q,
        None => {
            return None;
        },
    };
    let product = multiply_ratio(a, b, 1);
    let covered = multiply_ratio(floor, c, 1);
    let ghost x: nat = a as nat * b as nat;
    proof {
        assert(words_value(product) == x);
        assert(words_value(covered) == floor as nat * c as nat);
        lemma_exact_iff_covered(x, c as nat);
        if words_value(product) == words_value(covered) {
            lemma_words_value_injective(product, covered);
        }
    }
    let exact: bool = product[0] == covered[0] && product[1] == covered[1] && product[2]
        == covered[2] && product[3] == covered[3];
    assert(exact == (x % (c as nat) == 0));
    if exact {
        Some(floor)
    } else if floor == u128::MAX {
        None
    } else {
        Some(floor + 1)
    }
}

/// A division is exact precisely when the quotient times the divisor gives the
/// dividend back.
pub proof fn lemma_exact_iff_covered(x: nat, c: nat)
    requires
        c > 0,
    ensures
        (x % c == 0) <==> (x / c) * c == x,
{
    vstd::arithmetic::div_mod::lemma_fundamental_div_mod(x as int, c as int);
    assert((x / c) * c == c * (x / c)) by (nonlinear_arith);
}

/// Ten to the power `digits`.
pub open spec fn pow10_spec(digits: nat) -> nat
    decreases digits,
{
    if digits == 0 {
        1
    } else {
        10 * pow10_spec((digits - 1) as nat)
    }
}

/// Powers of ten grow with the exponent.
pub proof fn lemma_pow10_grows(a: nat, b: nat)
    requires
        a <= b,
    ensures
        1 <= pow10_spec(a) <= pow10_spec(b),
    decreases b,
{
    if b > 0 {
        if a < b {
            lemma_pow10_grows(a, (b - 1) as nat);
        } else {
            lemma_pow10_grows((a - 1) as nat, (b - 1) as nat);
        }
    }
}

/// The mantissa of one whole unit for a number of fractional digits; `None`
/// where it does not fit in 128 bits.
pub fn pow10(digits: u8) -> (r: Option<u128>)
    ensures
        r == (if pow10_spec(digits as nat) > u128::MAX {
            None
        } else {
            Some(pow10_spec(digits as nat) as u128)
        }),
{
    let mut p: u128 = 1;
    let mut i: u8 = 0;
    while i < digits
        invariant
            i <= digits,
            p == pow10_spec(i as nat),
        decreases digits - i,
    {
        match p.checked_mul(10) {
            Some(v) => {
                p = v;
            },
            None => {
                proof {
                    lemma_pow10_grows((i + 1) as nat, digits as nat);
                }
                return None;
            },
        }
        i = i + 1;
    }
    Some(p)
}

/// The mantissa, with 18 fractional digits, that
/// `cosmwasm_bignumber::Decimal256` reads from a decimal string; `None`
/// where it takes the string for no number.
pub uninterp spec fn decimal_from_str(s: Seq<char>) -> Option<nat>;

/// The longest string, in characters, that is handed to the parser. A
/// longer one could name a whole part beyond the 256-bit range of the
/// parser's arithmetic.
pub const MAX_DECIMAL_LEN: usize = 59;

/// Calls `cosmwasm_bignumber::Decimal256::from_str`. The contract names
/// the parser's result and says nothing more of it. The parser multiplies
/// the whole part by ten to the 18th in 256-bit arithmetic that panics on
/// overflow; a string of at most 59 characters has a whole part below ten
/// to the 59th, which is within range, so `requires` admits no longer one.
/// The number comes back as its four words, least significant first.
#[verifier::external_body]
fn decimal256_from_str(s: &str) -> (r: Option<[u64; 4]>)
    requires
        s@.len() <= MAX_DECIMAL_LEN,
    ensures
        match r {
            Some(w) => decimal_from_str(s@) == Some(words_value(w)),
            None => decimal_from_str(s@) is None,
        },
{
    match Decimal256::from_str(s) {
        Ok(d) => Some((d.0).0),
        Err(_) => None,
    }
}

/// What [`parse_decimal`] returns: the parser's reading of the string where
/// the string is short enough to parse and the number fits in 128 bits.
pub open spec fn parse_decimal_spec(s: Seq<char>) -> Option<u128> {
    if s.len() > MAX_DECIMAL_LEN {
        None
    } else {
        match decimal_from_str(s) {
            Some(v) => if v > u128::MAX {
                None
            } else {
                Some(v as u128)
            },
            None => None,
        }
    }
}

/// Reads a decimal string such as `"62.5"` as a mantissa with 18 fractional
/// digits.
pub fn parse_decimal(s: &str) -> (r: Option<u128>)
    ensures
        r == parse_decimal_spec(s@),
{
    if s.unicode_len() > MAX_DECIMAL_LEN {
        return None;
    }
    match decimal256_from_str(s) {
        Some(w) => words_to_u128(w),
        None => None,
    }
}

/// The whole units in `amount` where `amount` has no fractional part;
/// `None` where it has one or `decimals` is zero.
pub open spec fn whole_units_spec(amount: u128, decimals: u128) -> Option<u128> {
    if decimals == 0 || amount % decimals != 0 {
        None
    } else {
        Some(amount / decimals)
    }
}

/// The number of whole units that a mantissa stands for, for amounts that
/// are paid in indivisible units.
pub fn whole_units(amount: u128, decimals: u128) -> (r: Option<u128>)
    ensures
        r == whole_units_spec(amount, decimals),
{
    if decimals == 0 || amount % decimals != 0 {
        None
    } else {
        Some(amount / decimals)
    }
}

/// Whether `r` is the square root of `n` rounded down.
pub open spec fn is_sqrt_floor(n: nat, r: nat) -> bool {
    r * r <= n < (r + 1) * (r + 1)
}

/// The square root of `n`, rounded down.
pub open spec fn sqrt_floor(n: nat) -> nat {
    choose|r: nat| is_sqrt_floor(n, r)
}

/// A number has one square root rounded down.
pub proof fn lemma_sqrt_floor_unique(n: nat, r: nat)
    requires
        is_sqrt_floor(n, r),
    ensures
        sqrt_floor(n) == r,
{
    let s = sqrt_floor(n);
    assert(is_sqrt_floor(n, s));
    if s < r {
        assert((s + 1) * (s + 1) <= r * r) by (nonlinear_arith)
            requires
                s + 1 <= r,
        ;
    } else if r < s {
        assert((r + 1) * (r + 1) <= s * s) by (nonlinear_arith)
            requires
                r + 1 <= s,
        ;
    }
}

/// Of two numbers with the same high part, the one with the larger low word
/// is larger; otherwise the one with the larger high part is.
proof fn lemma_split_order(lo1: nat, hi1: nat, lo2: nat, hi2: nat)
    requires
        lo1 < word(),
        lo2 < word(),
    ensures
        lo1 + word() * hi1 <= lo2 + word() * hi2 <==> (hi1 < hi2 || (hi1 == hi2 && lo1 <= lo2)),
{
    if hi1 < hi2 {
        assert(word() * hi2 >= word() * hi1 + word()) by (nonlinear_arith)
            requires
                hi1 < hi2,
        ;
    } else if hi2 < hi1 {
        assert(word() * hi1 >= word() * hi2 + word()) by (nonlinear_arith)
            requires
                hi2 < hi1,
        ;
    }
}

/// Whether the number in `x` is at most the number in `y`.
fn words_le(x: [u64; 4], y: [u64; 4]) -> (r: bool)
    ensures
        r == (words_value(x) <= words_value(y)),
{
    proof {
        let gx: nat = x[2] as nat + word() * (x[3] as nat);
        let gy: nat = y[2] as nat + word() * (y[3] as nat);
        let hx: nat = x[1] as nat + word() * gx;
        let hy: nat = y[1] as nat + word() * gy;
        lemma_split_order(x[2] as nat, x[3] as nat, y[2] as nat, y[3] as nat);
        lemma_split_order(y[2] as nat, y[3] as nat, x[2] as nat, x[3] as nat);
        lemma_split_order(x[1] as nat, gx, y[1] as nat, gy);
        lemma_split_order(y[1] as nat, gy, x[1] as nat, gx);
        lemma_split_order(x[0] as nat, hx, y[0] as nat, hy);
    }
    if x[3] != y[3] {
        x[3] < y[3]
    } else if x[2] != y[2] {
        x[2] < y[2]
    } else if x[1] != y[1] {
        x[1] < y[1]
    } else {
        x[0] <= y[0]
    }
}

/// The square root of `a * b`, rounded down. The product is taken at full
/// width, so nothing overflows.
pub fn sqrt_of_product(a: u128, b: u128) -> (r: u128)
    ensures
        r == sqrt_floor(a as nat * b as nat),
        is_sqrt_floor(a as nat * b as nat, r as nat),
{
    let target = multiply_ratio(a, b, 1);
    let ghost n: nat = a as nat * b as nat;
    let mut lo: u128 = 0;
    let mut hi: u128 = u128::MAX;
    assert(n < (hi + 1) * (hi + 1)) by (nonlinear_arith)
        requires
            n == a as nat * b as nat,
            a <= hi,
            b <= hi,
    ;
    assert(lo * lo <= n) by (nonlinear_arith)
        requires
            lo == 0,
    ;
    while lo < hi
        invariant
            lo <= hi,
            n == a as nat * b as nat,
            words_value(target) == n,
            lo * lo <= n,
            n < (hi + 1) * (hi + 1),
        decreases hi - lo,
    {
        let mid: u128 = hi - (hi - lo) / 2;
        let square = multiply_ratio(mid, mid, 1);
        if words_le(square, target) {
            lo = mid;
        } else {
            hi = mid - 1;
        }
    }
    proof {
        lemma_sqrt_floor_unique(n, lo as nat);
    }
    lo
}

} // verus!
