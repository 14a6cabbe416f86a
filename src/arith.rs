use vstd::prelude::*;

verus! {

pub open spec fn abs(v: int) -> int {
    if v < 0 {
        -v
    } else {
        v
    }
}

pub open spec fn max(a: int, b: int) -> int {
    if a >= b {
        a
    } else {
        b
    }
}

/// `n / d` rounded to the nearest integer, halves away from zero (`d > 0`).
pub open spec fn round_div(n: int, d: int) -> int {
    if n >= 0 {
        (2 * n + d) / (2 * d)
    } else {
        -((-2 * n + d) / (2 * d))
    }
}

/// `n / d` truncated toward zero (`d > 0`).
pub open spec fn trunc_div(n: int, d: int) -> int {
    if n >= 0 {
        n / d
    } else {
        -((-n) / d)
    }
}

/// `x / d == q` whenever `q * d <= x < q * d + d`.
pub proof fn lemma_div_by_bounds(x: int, d: int, q: int)
    requires
        d > 0,
        q * d <= x < q * d + d,
    ensures
        x / d == q,
{
    vstd::arithmetic::div_mod::lemma_fundamental_div_mod_converse(x, d, q, x - q * d);
}

/// Rounding `k * m / s` for `0 <= k <= s` stays within `[0, m]`.
pub proof fn lemma_round_div_within(k: int, m: int, s: int)
    requires
        s > 0,
        0 <= k <= s,
        0 <= m,
    ensures
        0 <= round_div(k * m, s) <= m,
{
    assert(0 <= k * m <= s * m) by (nonlinear_arith)
        requires
            0 <= k <= s,
            0 <= m,
    ;
    assert((2 * s * m + s) / (2 * s) == m) by {
        assert(m * (2 * s) <= 2 * s * m + s < m * (2 * s) + 2 * s) by (nonlinear_arith)
            requires
                s > 0,
        ;
        lemma_div_by_bounds(2 * s * m + s, 2 * s, m);
    }
    assert(2 * (k * m) + s <= 2 * s * m + s) by (nonlinear_arith)
        requires
            k * m <= s * m,
    ;
    vstd::arithmetic::div_mod::lemma_div_is_ordered(2 * (k * m) + s, 2 * s * m + s, 2 * s);
    vstd::arithmetic::div_mod::lemma_div_pos_is_pos(2 * (k * m) + s, 2 * s);
}

/// Rounding is odd: `round_div(-n, d) == -round_div(n, d)`.
pub proof fn lemma_round_div_odd(n: int, d: int)
    requires
        d > 0,
    ensures
        round_div(-n, d) == -round_div(n, d),
{
    if n == 0 {
        lemma_div_by_bounds(d, 2 * d, 0);
    }
}

/// Rounding a signed `k * delta / s`, for `0 <= k <= s`, stays between `0` and `delta`.
pub proof fn lemma_round_step_between(k: int, delta: int, s: int)
    requires
        s > 0,
        0 <= k <= s,
    ensures
        delta >= 0 ==> 0 <= round_div(k * delta, s) <= delta,
        delta < 0 ==> delta <= round_div(k * delta, s) <= 0,
{
    if delta >= 0 {
        lemma_round_div_within(k, delta, s);
    } else {
        lemma_round_div_within(k, -delta, s);
        assert(k * delta == -(k * (-delta))) by (nonlinear_arith);
        lemma_round_div_odd(k * (-delta), s);
    }
}

/// Rounding `k * s / s` gives back `k`.
pub proof fn lemma_round_div_exact(k: int, s: int)
    requires
        s > 0,
    ensures
        round_div(k * s, s) == k,
{
    if k >= 0 {
        assert(k * (2 * s) <= 2 * (k * s) + s < k * (2 * s) + 2 * s) by (nonlinear_arith)
            requires
                s > 0,
        ;
        lemma_div_by_bounds(2 * (k * s) + s, 2 * s, k);
    } else {
        assert(k * s < 0) by (nonlinear_arith)
            requires
                s > 0,
                k < 0,
        ;
        assert((-k) * (2 * s) <= -2 * (k * s) + s < (-k) * (2 * s) + 2 * s) by (nonlinear_arith)
            requires
                s > 0,
        ;
        lemma_div_by_bounds(-2 * (k * s) + s, 2 * s, -k);
    }
}

/// Executable `round_div` on values small enough to stay far from overflow.
pub fn round_div_exec(n: i128, d: i128) -> (r: i128)
    requires
        0 < d <= 0x1_0000_0000_0000_0000,
        -0x1_0000_0000_0000_0000_0000_0000 <= n <= 0x1_0000_0000_0000_0000_0000_0000,
    ensures
        r == round_div(n as int, d as int),
{
    if n >= 0 {
        (2 * n + d) / (2 * d)
    } else {
        let m: i128 = -n;
        -((2 * m + d) / (2 * d))
    }
}

/// Executable `trunc_div` by a positive divisor.
pub fn trunc_div_exec(n: i64, d: i64) -> (r: i64)
    requires
        0 < d,
        n > i64::MIN,
    ensures
        r == trunc_div(n as int, d as int),
{
    if n >= 0 {
        n / d
    } else {
        -((-n) / d)
    }
}

} // verus!
