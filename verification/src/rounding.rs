//! Powers of ten and round-half-to-even integer division, used to rescale
//! decimal mantissas and to round query results at the report boundary.

use vstd::prelude::*;
use vstd::arithmetic::power::{pow, lemma_pow0, lemma_pow1, lemma_pow_adds, lemma_pow_increases};
use vstd::arithmetic::div_mod::{
    lemma_div_is_ordered, lemma_fundamental_div_mod, lemma_fundamental_div_mod_converse,
    lemma_mod_bound,
};

verus! {

/// The value of `10^30`, the largest rescaling factor in use.
pub proof fn lemma_pow10_30_value()
    ensures
        pow(10, 30) == 1000000000000000000000000000000,
{
    reveal_with_fuel(pow, 31);
}

/// `10^e`, as a mantissa rescaling factor.
pub fn pow10(e: u32) -> (r: i128)
    requires
        e <= 30,
    ensures
        r == pow(10, e as nat),
        r >= 1,
{
    proof {
        lemma_pow0(10);
    }
    let mut r: i128 = 1;
    let mut i: u32 = 0;
    while i < e
        invariant
            i <= e <= 30,
            r == pow(10, i as nat),
            1 <= r,
        decreases e - i,
    {
        proof {
            lemma_pow_adds(10, i as nat, 1);
            lemma_pow1(10);
            lemma_pow_increases(10, (i + 1) as nat, 30);
            lemma_pow10_30_value();
        }
        r = r * 10;
        i = i + 1;
    }
    r
}

/// `n / d` rounded to the nearest integer, ties going to the even neighbour
/// (banker's rounding). Meaningful for `d > 0`.
pub open spec fn div_half_even(n: int, d: int) -> int
    recommends
        d > 0,
{
    let q = n / d;
    let r = n % d;
    if 2 * r < d {
        q
    } else if 2 * r > d {
        q + 1
    } else if q % 2 == 0 {
        q
    } else {
        q + 1
    }
}

/// An exact quotient needs no rounding.
pub proof fn lemma_div_half_even_exact(k: int, d: int)
    requires
        d > 0,
    ensures
        div_half_even(k * d, d) == k,
{
    lemma_fundamental_div_mod_converse(k * d, d, k, 0);
}

/// Rounding is an odd function: negating the dividend negates the result.
pub proof fn lemma_div_half_even_neg(a: int, d: int)
    requires
        a >= 0,
        d > 0,
    ensures
        div_half_even(-a, d) == -div_half_even(a, d),
{
    let q = a / d;
    let r = a % d;
    lemma_fundamental_div_mod(a, d);
    lemma_mod_bound(a, d);
    if r == 0 {
        assert(-a == (-q) * d + 0) by (nonlinear_arith)
            requires
                a == q * d + r,
                r == 0,
        ;
        lemma_fundamental_div_mod_converse(-a, d, -q, 0);
    } else {
        assert(-a == (-q - 1) * d + (d - r)) by (nonlinear_arith)
            requires
                a == q * d + r,
        ;
        lemma_fundamental_div_mod_converse(-a, d, -q - 1, d - r);
        if 2 * r == d {
            lemma_parity_of_negated_successor(q);
        }
    }
}

/// `(-q - 1) % 2` is the complement of `q % 2`.
proof fn lemma_parity_of_negated_successor(q: int)
    ensures
        (-q - 1) % 2 == 1 - (q % 2),
{
    let k = q / 2;
    let p = q % 2;
    lemma_fundamental_div_mod(q, 2);
    lemma_mod_bound(q, 2);
    if p == 0 {
        assert(-q - 1 == (-k - 1) * 2 + 1) by (nonlinear_arith)
            requires
                q == k * 2 + p,
                p == 0,
        ;
        lemma_fundamental_div_mod_converse(-q - 1, 2, -k - 1, 1);
    } else {
        assert(-q - 1 == (-k - 1) * 2 + 0) by (nonlinear_arith)
            requires
                q == k * 2 + p,
                p == 1,
        ;
        lemma_fundamental_div_mod_converse(-q - 1, 2, -k - 1, 0);
    }
}

/// A common positive factor of dividend and divisor does not change the
/// rounded quotient.
pub proof fn lemma_div_half_even_common_factor(c: int, n: int, d: int)
    requires
        c > 0,
        d > 0,
    ensures
        div_half_even(c * n, c * d) == div_half_even(n, d),
{
    let q = n / d;
    let r = n % d;
    lemma_fundamental_div_mod(n, d);
    lemma_mod_bound(n, d);
    assert(c * n == q * (c * d) + c * r && 0 <= c * r < c * d) by (nonlinear_arith)
        requires
            n == q * d + r,
            0 <= r < d,
            c > 0,
    ;
    lemma_fundamental_div_mod_converse(c * n, c * d, q, c * r);
    assert((2 * (c * r) < c * d <==> 2 * r < d) && (2 * (c * r) > c * d <==> 2 * r > d))
        by (nonlinear_arith)
        requires
            c > 0,
    ;
}

/// Round-half-to-even division on magnitudes.
fn round_magnitude(a: u128, d: u128) -> (r: u128)
    requires
        1 <= d,
    ensures
        r == div_half_even(a as int, d as int),
        r <= a,
{
    let q = a / d;
    let rem = a % d;
    proof {
        lemma_fundamental_div_mod(a as int, d as int);
        lemma_mod_bound(a as int, d as int);
        assert(rem >= 1 ==> q + 1 <= a) by (nonlinear_arith)
            requires
                a as int == d as int * (q as int) + rem as int,
                q >= 0,
                d >= 1,
                rem >= 0,
        ;
    }
    if rem < d - rem {
        q
    } else if rem > d - rem {
        q + 1
    } else if q % 2 == 0 {
        q
    } else {
        q + 1
    }
}

/// `n / d` with round-half-to-even, for signed dividends.
pub fn div_round_half_even(n: i128, d: i128) -> (r: i128)
    requires
        d > 0,
        -i128::MAX <= n,
    ensures
        r == div_half_even(n as int, d as int),
        -i128::MAX <= r,
        r <= i128::MAX,
{
    if n >= 0 {
        let q = round_magnitude(n as u128, d as u128);
        q as i128
    } else {
        let a: i128 = -n;
        let q = round_magnitude(a as u128, d as u128);
        proof {
            lemma_div_half_even_neg(a as int, d as int);
        }
        -(q as i128)
    }
}

/// A dividend of magnitude at most `c * d` rounds to a quotient of magnitude
/// at most `c + 1`.
pub proof fn lemma_div_half_even_magnitude(n: int, d: int, c: int)
    requires
        d > 0,
        c >= 0,
        -(c * d) <= n <= c * d,
    ensures
        -(c + 1) <= div_half_even(n, d) <= c + 1,
{
    lemma_fundamental_div_mod_converse(c * d, d, c, 0);
    assert(-(c * d) == (-c) * d) by (nonlinear_arith);
    lemma_fundamental_div_mod_converse((-c) * d, d, -c, 0);
    lemma_div_is_ordered(n, c * d, d);
    lemma_div_is_ordered((-c) * d, n, d);
}

} // verus!
