//! Integer arithmetic facts the engine's contracts rest on: the floor
//! square root used to seed shares on a first deposit, and the bounds
//! that proportional `a * b / c` computations obey.

use vstd::prelude::*;
use vstd::arithmetic::div_mod::{
    lemma_div_by_multiple, lemma_div_by_self, lemma_div_decreases, lemma_div_is_ordered,
    lemma_div_nonincreasing, lemma_div_plus_one, lemma_fundamental_div_mod, lemma_mod_bound,
};

verus! {

/// The greatest `r` with `r * r <= n`, defined by quartering.
pub open spec fn sqrt_floor(n: nat) -> nat
    decreases n,
{
    if n < 2 {
        n
    } else {
        let half = 2 * sqrt_floor(n / 4);
        if (half + 1) * (half + 1) <= n {
            half + 1
        } else {
            half
        }
    }
}

/// `sqrt_floor(n)` squares to at most `n`, and its successor squares
/// past `n`: it is the floor of the real square root.
pub proof fn lemma_sqrt_floor_bounds(n: nat)
    ensures
        sqrt_floor(n) * sqrt_floor(n) <= n,
        n < (sqrt_floor(n) + 1) * (sqrt_floor(n) + 1),
    decreases n,
{
    if n < 2 {
        assert(sqrt_floor(n) == n);
        assert(n * n <= n && n < (n + 1) * (n + 1)) by (nonlinear_arith)
            requires n < 2,
        ;
    } else {
        let q = n / 4;
        lemma_sqrt_floor_bounds(q);
        let r = sqrt_floor(q);
        let half = 2 * r;
        lemma_fundamental_div_mod(n as int, 4);
        lemma_mod_bound(n as int, 4);
        assert(4 * q <= n && n <= 4 * q + 3);
        assert(half * half <= n) by (nonlinear_arith)
            requires
                r * r <= q,
                half == 2 * r,
                4 * q <= n,
        ;
        assert(n < (half + 2) * (half + 2)) by (nonlinear_arith)
            requires
                q < (r + 1) * (r + 1),
                half == 2 * r,
                n <= 4 * q + 3,
        ;
        if (half + 1) * (half + 1) <= n {
            assert(sqrt_floor(n) == half + 1);
        } else {
            assert(sqrt_floor(n) == half);
        }
    }
}

/// `x + n / x` never exceeds `n + 1`, and stays at or under `n` away
/// from the endpoints `x == 1` and `x == n`.
proof fn lemma_newton_sum_bound(n: int, x: int)
    requires
        1 <= x,
        x <= n,
    ensures
        x + n / x <= n + 1,
        2 <= x && x <= n - 1 ==> x + n / x <= n,
{
    let d = n / x;
    lemma_fundamental_div_mod(n, x);
    lemma_mod_bound(n, x);
    if x == 1 {
        assert(d == n);
    } else if x == n {
        assert(d == 1) by (nonlinear_arith)
            requires
                2 <= x,
                n == x * d + n % x,
                0 <= n % x,
                n % x < x,
                x == n,
        ;
    } else {
        assert(x + d <= n) by (nonlinear_arith)
            requires
                2 <= x,
                x <= n - 1,
                x * d <= n,
                0 <= d,
        ;
    }
}

/// One Newton step from any positive `x` stays at or above the floor
/// square root of `n`.
proof fn lemma_newton_step_bound(n: nat, x: nat)
    requires
        1 <= x,
    ensures
        sqrt_floor(n) <= (x + n / x) / 2,
{
    let s = sqrt_floor(n);
    lemma_sqrt_floor_bounds(n);
    let d = n / x;
    lemma_fundamental_div_mod(n as int, x as int);
    lemma_mod_bound(n as int, x as int);
    assert(x * d > n - x);
    assert(x + d >= 2 * s) by (nonlinear_arith)
        requires
            s * s <= n,
            1 <= x,
            0 <= d,
            0 <= s,
            x * d > n - x,
    ;
    lemma_fundamental_div_mod((x + d) as int, 2);
    lemma_mod_bound((x + d) as int, 2);
    assert((x + d) / 2 >= s);
}

/// Floor square root, by Newton's method on integers.
pub fn integer_sqrt(n: u128) -> (r: u128)
    ensures
        r == sqrt_floor(n as nat),
{
    if n == 0 {
        return 0;
    }
    let mut x: u128 = n;
    let mut y: u128 = (n - 1) / 2 + 1;
    proof {
        lemma_sqrt_floor_bounds(n as nat);
        let s = sqrt_floor(n as nat) as int;
        assert(s <= n) by (nonlinear_arith)
            requires s * s <= n, 0 <= s,
        ;
        if s >= 2 {
            // s <= s * s / 2 <= n / 2 <= (n + 1) / 2 == (n - 1) / 2 + 1
            assert(2 * s <= s * s) by (nonlinear_arith)
                requires 2 <= s,
            ;
            lemma_div_is_ordered(2 * s, n as int, 2);
            lemma_div_by_multiple(s, 2);
            lemma_div_is_ordered(n as int, n as int + 1, 2);
            lemma_div_plus_one(n as int - 1, 2);
        }
    }
    while y < x
        invariant
            1 <= n,
            1 <= x,
            x <= n,
            1 <= y,
            y <= (n - 1) / 2 + 1,
            sqrt_floor(n as nat) <= x,
            sqrt_floor(n as nat) <= y,
            (x == n && y == (n - 1) / 2 + 1) || y == (x + n / x) / 2,
        decreases x,
    {
        x = y;
        let ghost s = sqrt_floor(n as nat) as int;
        proof {
            // x is now the former y: at most (n - 1) / 2 + 1 <= n.
            lemma_div_nonincreasing(n as int - 1, 2);
            lemma_newton_sum_bound(n as int, x as int);
            lemma_sqrt_floor_bounds(n as nat);
            if n >= 4 {
                // the root is at least 2, so x stays off both endpoints
                if s < 2 {
                    assert((s + 1) * (s + 1) <= 4) by (nonlinear_arith)
                        requires 0 <= s, s < 2,
                    ;
                    assert(false);
                }
                if n as int - 1 >= 2 {
                    lemma_div_decreases(n as int - 1, 2);
                }
                assert(x as int + n as int / x as int <= n);
            } else {
                assert(x as int + n as int / x as int <= n + 1);
            }
        }
        let q = n / x;
        proof {
            lemma_newton_step_bound(n as nat, x as nat);
            lemma_div_by_self(x as int);
            lemma_div_is_ordered(x as int, n as int, x as int);
            // the halved sum stays at least 1 and within the y bound
            lemma_fundamental_div_mod(x as int + q as int, 2);
            lemma_mod_bound(x as int + q as int, 2);
            lemma_div_is_ordered(x as int + q as int, n as int + 1, 2);
            lemma_div_plus_one(n as int - 1, 2);
        }
        y = (x + q) / 2;
    }
    proof {
        let s = sqrt_floor(n as nat) as int;
        lemma_sqrt_floor_bounds(n as nat);
        if x == n && y == (n - 1) / 2 + 1 {
            // y >= x forces n == 1 here, where x == 1 is the root
            if n >= 2 {
                lemma_div_decreases(n as int - 1, 2);
                assert(false);
            }
            assert(sqrt_floor(1nat) == 1);
        } else {
            let d = n as int / x as int;
            lemma_fundamental_div_mod(n as int, x as int);
            lemma_mod_bound(n as int, x as int);
            lemma_fundamental_div_mod(x as int + d, 2);
            lemma_mod_bound(x as int + d, 2);
            assert(d >= x);
            assert(n >= x * x) by (nonlinear_arith)
                requires
                    n as int == x as int * d + n as int % x as int,
                    0 <= n as int % x as int,
                    d >= x as int,
                    1 <= x,
            ;
            assert((x as int) < s + 1) by (nonlinear_arith)
                requires
                    x as int * x as int <= n,
                    n < (s + 1) * (s + 1),
                    0 <= s,
                    1 <= x,
            ;
        }
    }
    x
}

/// A proportional claim never exceeds the whole: with `s <= t`,
/// `x * s / t <= x`.
pub proof fn lemma_prorata_le_whole(x: int, s: int, t: int)
    requires
        0 <= x,
        0 <= s,
        s <= t,
        1 <= t,
    ensures
        x * s / t <= x,
{
    lemma_fundamental_div_mod(x * s, t);
    lemma_mod_bound(x * s, t);
    assert(x * s / t <= x) by (nonlinear_arith)
        requires
            0 <= x,
            0 <= s,
            s <= t,
            1 <= t,
            x * s == t * (x * s / t) + (x * s) % t,
            0 <= (x * s) % t,
    ;
}

/// Constant-product output is strictly less than the drained reserve:
/// `a * r_out / (r_in + a) < r_out` whenever `r_in` is positive.
pub proof fn lemma_cp_output_lt_reserve(a: int, r_in: int, r_out: int)
    requires
        0 <= a,
        1 <= r_in,
        1 <= r_out,
    ensures
        a * r_out / (r_in + a) < r_out,
{
    lemma_fundamental_div_mod(a * r_out, r_in + a);
    lemma_mod_bound(a * r_out, r_in + a);
    assert(a * r_out / (r_in + a) < r_out) by (nonlinear_arith)
        requires
            0 <= a,
            1 <= r_in,
            1 <= r_out,
            a * r_out == (r_in + a) * (a * r_out / (r_in + a)) + (a * r_out) % (r_in + a),
            0 <= (a * r_out) % (r_in + a),
            (a * r_out) % (r_in + a) < r_in + a,
    ;
}

/// Scaling a quotient back up never exceeds the dividend:
/// `(a / b) * b <= a`.
pub proof fn lemma_div_mul_le(a: int, b: int)
    requires
        0 <= a,
        1 <= b,
    ensures
        (a / b) * b <= a,
{
    lemma_fundamental_div_mod(a, b);
    lemma_mod_bound(a, b);
    assert((a / b) * b <= a) by (nonlinear_arith)
        requires
            a == b * (a / b) + a % b,
            0 <= a % b,
    ;
}

} // verus!
