//! Fixed-point amounts.
//!
//! Every price, volume, balance, ratio and fee in this crate is an `i64` that
//! counts units of one hundred-millionth (`1 / SCALE`), the precision in which
//! exchanges quote decimal strings. Contracts speak of these counts as
//! mathematical integers; every division rounds towards negative infinity.

use vstd::prelude::*;
use vstd::arithmetic::div_mod::lemma_fundamental_div_mod;
use vstd::arithmetic::div_mod::lemma_fundamental_div_mod_converse;

verus! {

/// Number of units in one whole.
pub const SCALE: i64 = 100_000_000;

/// The number of fractional decimal digits that one unit resolves.
pub const DECIMALS: usize = 8;

/// Floor division on wide integers: the quotient rounded towards negative
/// infinity, whatever the sign of the numerator.
pub fn div_floor(n: i128, d: i128) -> (q: i128)
    requires
        d > 0,
        n > i128::MIN,
    ensures
        q == n / d,
{
    if n >= 0 {
        n / d
    } else {
        let below: i128 = (-n - 1) / d;
        proof {
            let s: int = (-n - 1) % (d as int);
            lemma_fundamental_div_mod(-n - 1, d as int);
            assert(d * below == below * d) by (nonlinear_arith);
            assert((-below - 1) * d == -(below * d) - d) by (nonlinear_arith);
            lemma_fundamental_div_mod_converse(n as int, d as int, -below - 1, d - 1 - s);
        }
        -below - 1
    }
}

/// As many amounts as a machine can count sum to a wide integer above the
/// least one.
pub proof fn lemma_many_amounts_fit(total: int, n: int)
    requires
        0 <= n <= usize::MAX,
        n * i64::MIN <= total <= n * i64::MAX,
    ensures
        i128::MIN < total < i128::MAX,
{
    assert(n * i64::MIN >= -0xffff_ffff_ffff_ffff * 0x8000_0000_0000_0000) by (nonlinear_arith)
        requires
            0 <= n <= 0xffff_ffff_ffff_ffff,
    ;
    assert(n * i64::MAX <= 0xffff_ffff_ffff_ffff * 0x7fff_ffff_ffff_ffff) by (nonlinear_arith)
        requires
            0 <= n <= 0xffff_ffff_ffff_ffff,
    ;
}

/// Floor division is monotone in the numerator.
pub proof fn lemma_div_floor_monotone(a: int, b: int, d: int)
    requires
        d > 0,
        a <= b,
    ensures
        a / d <= b / d,
{
    vstd::arithmetic::div_mod::lemma_div_is_ordered(a, b, d);
}

/// Dividing an exact multiple gives the factor back.
pub proof fn lemma_div_exact(q: int, d: int)
    requires
        d > 0,
    ensures
        (q * d) / d == q,
{
    lemma_fundamental_div_mod_converse(q * d, d, q, 0);
}

/// The floor quotient times the divisor never exceeds the numerator and
/// misses it by less than the divisor.
pub proof fn lemma_div_floor_bounds(n: int, d: int)
    requires
        d > 0,
    ensures
        (n / d) * d <= n < (n / d) * d + d,
{
    lemma_fundamental_div_mod(n, d);
    assert(d * (n / d) == (n / d) * d) by (nonlinear_arith);
}

/// The sum of a sequence of amounts.
pub open spec fn seq_sum(s: Seq<i64>) -> int
    decreases s.len(),
{
    if s.len() == 0 {
        0
    } else {
        seq_sum(s.drop_last()) + s.last()
    }
}

/// The mean of amounts is an amount.
pub proof fn lemma_mean_in_range(sum: int, n: int)
    requires
        n > 0,
        n * i64::MIN <= sum <= n * i64::MAX,
    ensures
        i64::MIN <= sum / n <= i64::MAX,
{
    lemma_div_floor_monotone(n * i64::MIN, sum, n);
    lemma_div_floor_monotone(sum, n * i64::MAX, n);
    assert(n * i64::MIN == i64::MIN * n) by (nonlinear_arith);
    assert(n * i64::MAX == i64::MAX * n) by (nonlinear_arith);
    lemma_div_exact(i64::MIN as int, n);
    lemma_div_exact(i64::MAX as int, n);
}

/// The sum of the amounts at positions `[from, to)`.
pub fn sum_range(data: &Vec<i64>, from: usize, to: usize) -> (total: i128)
    requires
        from <= to <= data@.len(),
    ensures
        total == seq_sum(data@.subrange(from as int, to as int)),
        (to - from) * i64::MIN <= total <= (to - from) * i64::MAX,
        i128::MIN < total < i128::MAX,
{
    let mut total: i128 = 0;
    let mut i: usize = from;
    assert(data@.subrange(from as int, from as int) =~= Seq::<i64>::empty());
    while i < to
        invariant
            from <= i <= to <= data@.len(),
            total == seq_sum(data@.subrange(from as int, i as int)),
            (i - from) * i64::MIN <= total <= (i - from) * i64::MAX,
        decreases to - i,
    {
        proof {
            let next = data@.subrange(from as int, i + 1);
            assert(next.drop_last() =~= data@.subrange(from as int, i as int));
            assert(next.last() == data@[i as int]);
            let n = i - from;
            assert((n + 1) * i64::MIN == n * i64::MIN + i64::MIN) by (nonlinear_arith);
            assert((n + 1) * i64::MAX == n * i64::MAX + i64::MAX) by (nonlinear_arith);
            lemma_many_amounts_fit(total as int, n);
            lemma_many_amounts_fit(total + data@[i as int], n + 1);
        }
        total = total + data[i] as i128;
        i += 1;
    }
    proof {
        lemma_many_amounts_fit(total as int, to - from);
    }
    total
}

} // verus!
