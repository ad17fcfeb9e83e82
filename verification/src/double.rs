//! Binary64 results of integer conversions and divisions, computed exactly.
//!
//! A double has a 53-bit significand and rounds to nearest, ties to even. The
//! functions here give the rounded results as integers and ratios, for the
//! operands that occur: non-negative integers of at most 64 bits.
use vstd::arithmetic::div_mod::*;
use vstd::arithmetic::mul::*;
use vstd::prelude::*;

verus! {

/// 2 to the 52nd: the smallest significand.
pub const SIGNIFICAND_MIN: u128 = 4503599627370496;

/// 2 to the 53rd: one more than the largest significand.
pub const SIGNIFICAND_END: u128 = 9007199254740992;

/// The integer nearest to `n / d`; of two equally near ones the even one.
pub open spec fn round_half_even(n: nat, d: nat) -> nat {
    let q = n / d;
    let r = n % d;
    if 2 * r < d || (2 * r == d && q % 2 == 0) {
        q
    } else {
        q + 1
    }
}

/// The smallest power of two, from `d` on, by which `n` has to be divided to
/// fit into a significand.
pub open spec fn down_scale(n: nat, d: nat) -> nat
    decreases n - d,
{
    if d == 0 || n < SIGNIFICAND_END * d {
        d
    } else {
        down_scale(n, 2 * d)
    }
}

/// The double nearest to the integer `n`. It is an integer too.
pub open spec fn int_double(n: nat) -> nat {
    let d = down_scale(n, 1);
    round_half_even(n, d) * d
}

/// The smallest power of two, from `k` on, that lifts `n / d` to a full significand.
pub open spec fn up_scale(n: nat, d: nat, k: nat) -> nat
    decreases 2 * (SIGNIFICAND_MIN * d) - n * k,
{
    if n == 0 || k == 0 || n * k >= SIGNIFICAND_MIN * d {
        k
    } else {
        proof {
            assert(n * (2 * k) == 2 * (n * k) && n * k > 0) by (nonlinear_arith)
                requires
                    n > 0,
                    k > 0,
            ;
        }
        up_scale(n, d, 2 * k)
    }
}

/// The double nearest to `n / d`, as a ratio with a power of two below. For
/// `n / d` less than 2 to the 53rd.
pub open spec fn double_quotient(n: nat, d: nat) -> (nat, nat) {
    let k = up_scale(n, d, 1);
    (round_half_even(n * k, d), k)
}

proof fn lemma_round_bounds(n: nat, d: nat)
    requires
        d > 0,
    ensures
        round_half_even(n, d) <= n / d + 1,
        n / d <= n,
{
    lemma_div_is_ordered_by_denominator(n as int, 1, d as int);
    lemma_div_basics(n as int);
}

/// The integer nearest to `n / d`; of two equally near ones the even one.
pub fn nearest(n: u128, d: u128) -> (r: u128)
    requires
        0 < d,
        n < u128::MAX,
    ensures
        r == round_half_even(n as nat, d as nat),
        r <= n / d + 1,
{
    let q: u128 = n / d;
    let rem: u128 = n % d;
    proof {
        lemma_round_bounds(n as nat, d as nat);
        lemma_fundamental_div_mod(n as int, d as int);
    }
    // 2 * rem compared with d, without overflow
    let other: u128 = d - rem;
    if rem < other || (rem == other && q % 2 == 0) {
        q
    } else {
        q + 1
    }
}

/// The double nearest to `n`.
pub fn to_double(n: u64) -> (r: u128)
    ensures
        r == int_double(n as nat),
        r <= 2 * 18446744073709551616,
        n >= 1 ==> r >= 1,
        n < SIGNIFICAND_END ==> r == n,
{
    let m: u128 = n as u128;
    let mut d: u128 = 1;
    while m >= SIGNIFICAND_END * d
        invariant
            m == n as u128,
            1 <= d,
            d == 1 || SIGNIFICAND_END * d <= 2 * m,
            d <= 18446744073709551616,
            down_scale(m as nat, 1) == down_scale(m as nat, d as nat),
        decreases m - d,
    {
        d = 2 * d;
    }
    let q: u128 = nearest(m, d);
    proof {
        lemma_fundamental_div_mod(m as int, d as int);
        assert(q * d <= (m / d) * d + d) by (nonlinear_arith)
            requires
                q <= m / d + 1,
                d >= 1,
        ;
        assert((m / d) * d <= m) by (nonlinear_arith)
            requires
                m == d * (m / d) + m % d,
                m % d >= 0,
        ;
        if d > 1 {
            assert(m / d >= 1) by (nonlinear_arith)
                requires
                    m == d * (m / d) + m % d,
                    m % d < d,
                    m >= d,
                    d > 0,
            ;
            assert(q * d >= 1) by (nonlinear_arith)
                requires
                    q >= 1,
                    d >= 1,
            ;
        } else {
            assert(q == m);
            assert(q * d == m) by (nonlinear_arith)
                requires
                    q == m,
                    d == 1,
            ;
        }
    }
    q * d
}

/// The double nearest to `n / d`, as a ratio.
pub fn quotient(n: u128, d: u128) -> (r: (u128, u128))
    requires
        0 < n < SIGNIFICAND_END * d,
        0 < d <= 2 * 18446744073709551616,
    ensures
        (r.0 as nat, r.1 as nat) == double_quotient(n as nat, d as nat),
        r.0 <= SIGNIFICAND_END,
        1 <= r.1 <= 0x1000000000000000000000000000000,
{
    let target: u128 = SIGNIFICAND_MIN * d;
    let mut k: u128 = 1;
    let mut nk: u128 = n;
    while nk < target
        invariant
            0 < n,
            0 < d <= 2 * 18446744073709551616,
            target == SIGNIFICAND_MIN * d,
            nk == n * k,
            1 <= k <= nk < 2 * target,
            up_scale(n as nat, d as nat, 1) == up_scale(n as nat, d as nat, k as nat),
        decreases 2 * target - nk,
    {
        assert(n * (2 * k) == 2 * nk) by (nonlinear_arith)
            requires
                nk == n * k,
        ;
        nk = 2 * nk;
        k = 2 * k;
    }
    let q: u128 = nearest(nk, d);
    proof {
        lemma_round_upper(nk as nat, d as nat, SIGNIFICAND_END as nat);
    }
    (q, k)
}

/// A ratio below an integer rounds to at most that integer.
proof fn lemma_round_upper(n: nat, d: nat, bound: nat)
    requires
        d > 0,
        n < bound * d,
    ensures
        round_half_even(n, d) <= bound,
{
    lemma_fundamental_div_mod(n as int, d as int);
    assert(n / d < bound) by (nonlinear_arith)
        requires
            n == d * (n / d) + n % d,
            n % d >= 0,
            n < bound * d,
            d > 0,
    ;
}

/// A quotient is rounded to a nearest whole number, and to the even one where two
/// are as near.
pub proof fn law_rounding_is_nearest(n: nat, d: nat)
    requires
        d > 0,
    ensures
        ({
            let r = round_half_even(n, d);
            &&& 2 * (r * d) <= 2 * n + d
            &&& 2 * n <= 2 * (r * d) + d
            &&& 2 * (r * d) == 2 * n + d || 2 * n == 2 * (r * d) + d ==> r % 2 == 0
        }),
{
    let q = n / d;
    let m = n % d;
    assert(n == q * d + m && m < d) by {
        vstd::arithmetic::div_mod::lemma_fundamental_div_mod(n as int, d as int);
        vstd::arithmetic::div_mod::lemma_mod_bound(n as int, d as int);
        assert(d * q == q * d) by (nonlinear_arith);
    }
    assert((q + 1) * d == q * d + d) by (nonlinear_arith);
}

proof fn lemma_down_scale(n: nat, d: nat)
    requires
        d > 0,
    ensures
        down_scale(n, d) >= d,
        n < SIGNIFICAND_END * down_scale(n, d),
        down_scale(n, d) == d || SIGNIFICAND_END * down_scale(n, d) <= 2 * n,
    decreases n - d,
{
    if n >= SIGNIFICAND_END * d {
        lemma_down_scale(n, 2 * d);
    }
}

proof fn lemma_up_scale(n: nat, d: nat, k: nat)
    requires
        n > 0,
        k > 0,
    ensures
        up_scale(n, d, k) >= k,
        n * up_scale(n, d, k) >= SIGNIFICAND_MIN * d,
    decreases 2 * (SIGNIFICAND_MIN * d) - n * k,
{
    if n * k < SIGNIFICAND_MIN * d {
        assert(n * (2 * k) == 2 * (n * k) && n * k > 0) by (nonlinear_arith)
            requires
                n > 0,
                k > 0,
        ;
        lemma_up_scale(n, d, 2 * k);
    }
}

/// A whole number as a double is the number itself below the end of the
/// significands, and near it above.
pub proof fn law_whole_numbers_as_doubles(n: nat)
    ensures
        n < SIGNIFICAND_END ==> int_double(n) == n,
        SIGNIFICAND_END * 2 * int_double(n) <= SIGNIFICAND_END * 2 * n + 2 * n + SIGNIFICAND_END,
        SIGNIFICAND_END * 2 * n <= SIGNIFICAND_END * 2 * int_double(n) + 2 * n + SIGNIFICAND_END,
{
    let d = down_scale(n, 1);
    lemma_down_scale(n, 1);
    law_rounding_is_nearest(n, d);
    if n < SIGNIFICAND_END {
        assert(d == 1);
        assert(n / 1 == n && n % 1 == 0);
        assert(round_half_even(n, 1) == n);
        assert(n * 1 == n);
    }
}

/// A quotient as a double is nearest to what it stands for, with all the digits
/// of a significand.
pub proof fn law_quotients_as_doubles(n: nat, d: nat)
    requires
        n > 0,
        d > 0,
    ensures
        ({
            let (m, k) = double_quotient(n, d);
            &&& k >= 1
            &&& 2 * (m * d) <= 2 * (n * k) + d
            &&& 2 * (n * k) <= 2 * (m * d) + d
            &&& n * k >= SIGNIFICAND_MIN * d
        }),
{
    let k = up_scale(n, d, 1);
    lemma_up_scale(n, d, 1);
    law_rounding_is_nearest(n * k, d);
}

} // verus!
