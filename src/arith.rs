//! Integer helpers shared by the engines: integer square root and an exact
//! `floor(a * n / d)` that never overflows in its intermediate steps.

use vstd::prelude::*;

verus! {

/// Basis points in one whole.
pub const BPS_SCALE: u64 = 10000;

/// `r` is the integer square root of `n`.
pub open spec fn is_isqrt(n: int, r: int) -> bool {
    0 <= r && r * r <= n && n < (r + 1) * (r + 1)
}

/// The integer square root of `n`, for `n >= 0`.
pub open spec fn isqrt_spec(n: int) -> int {
    choose|r: int| is_isqrt(n, r)
}

/// An integer square root is unique, so any witness is `isqrt_spec(n)`.
pub proof fn lemma_isqrt_unique(n: int, r: int)
    requires
        is_isqrt(n, r),
    ensures
        isqrt_spec(n) == r,
{
    let s = isqrt_spec(n);
    assert(is_isqrt(n, s));
    if s < r {
        assert((s + 1) * (s + 1) <= r * r) by (nonlinear_arith)
            requires 0 <= s, s + 1 <= r;
    } else if r < s {
        assert((r + 1) * (r + 1) <= s * s) by (nonlinear_arith)
            requires 0 <= r, r + 1 <= s;
    }
}

/// Largest `r` with `r * r <= n`, by bisection over `[0, 2^64)`.
pub fn isqrt(n: u128) -> (r: u128)
    ensures
        is_isqrt(n as int, r as int),
        r as int == isqrt_spec(n as int),
{
    let mut lo: u128 = 0;
    let mut hi: u128 = 0x1_0000_0000_0000_0000;
    assert(hi * hi > u128::MAX) by (nonlinear_arith)
        requires hi == 0x1_0000_0000_0000_0000u128;
    while hi - lo > 1
        invariant
            lo < hi <= 0x1_0000_0000_0000_0000u128,
            lo * lo <= n,
            n < hi * hi,
        decreases hi - lo,
    {
        let mid = lo + (hi - lo) / 2;
        assert(mid * mid <= u128::MAX) by (nonlinear_arith)
            requires mid < 0x1_0000_0000_0000_0000u128;
        if mid * mid <= n {
            lo = mid;
        } else {
            hi = mid;
        }
    }
    assert(hi == lo + 1);
    proof {
        lemma_isqrt_unique(n as int, lo as int);
    }
    lo
}

/// Sum of two quotient/remainder pairs taken modulo `d`: the result stands for
/// `(q1 * d + r1) + (q2 * d + r2)` with its remainder below `d` again.
fn add_mod(q1: u128, r1: u128, q2: u128, r2: u128, d: u128) -> (res: (u128, u128))
    requires
        r1 < d,
        r2 < d,
        q1 + q2 + 1 <= u128::MAX,
    ensures
        res.0 * d + res.1 == (q1 * d + r1) + (q2 * d + r2),
        res.1 < d,
{
    proof {
        assert((q1 + q2) * d == q1 * d + q2 * d) by (nonlinear_arith);
        assert((q1 + q2 + 1) * d == q1 * d + q2 * d + d) by (nonlinear_arith);
    }
    if r1 >= d - r2 {
        (q1 + q2 + 1, r1 - (d - r2))
    } else {
        (q1 + q2, r1 + r2)
    }
}

/// `floor(a * n / d)` when it fits in a `u128`, `None` when it does not. No
/// intermediate product is formed, so this holds for every `a`.
pub fn mul_div_floor(a: u128, n: u64, d: u128) -> (r: Option<u128>)
    requires
        d > 0,
    ensures
        r == (if (a as int) * (n as int) / (d as int) <= u128::MAX as int {
            Some(((a as int) * (n as int) / (d as int)) as u128)
        } else {
            None::<u128>
        }),
{
    let q = a / d;
    let rem = a % d;
    // rem * n is built bit by bit of n, as a quotient/remainder pair modulo d.
    let mut acc_q: u128 = 0;
    let mut acc_r: u128 = 0;
    let mut p_q: u128 = 0;
    let mut p_r: u128 = rem;
    let mut m: u64 = n;
    let ghost mut pw: int = 1;
    while m > 0
        invariant
            d > 0,
            rem < d,
            acc_r < d,
            p_r < d,
            pw >= 1,
            (m as int) * pw <= n as int,
            p_q * d + p_r == (rem as int) * pw,
            (rem as int) * (n as int) == (acc_q * d + acc_r) + (p_q * d + p_r) * (m as int),
            acc_q < n as int || (acc_q == 0 && n == 0),
            p_q < pw,
        decreases m,
    {
        let ghost m0 = m as int;
        let ghost big_p = p_q * d + p_r;
        let ghost big_a = acc_q * d + acc_r;
        proof {
            assert(m0 * pw >= pw) by (nonlinear_arith)
                requires m0 >= 1, pw >= 1;
            assert(big_p * m0 >= 0) by (nonlinear_arith)
                requires big_p >= 0, m0 >= 0;
            assert(acc_q * d <= big_a) by (nonlinear_arith)
                requires big_a == acc_q * d + acc_r, acc_r >= 0;
            assert((rem as int) * (n as int) < (d as int) * (n as int)) by (nonlinear_arith)
                requires rem < d, n > 0;
            assert(acc_q < n) by (nonlinear_arith)
                requires acc_q * d <= (rem as int) * (n as int), (rem as int) * (n as int) < (d as int) * (n as int), d > 0;
        }
        if m % 2 == 1 {
            let s = add_mod(acc_q, acc_r, p_q, p_r, d);
            acc_q = s.0;
            acc_r = s.1;
            assert(big_p * (m0 % 2) == big_p) by (nonlinear_arith)
                requires m0 % 2 == 1;
        } else {
            assert(big_p * (m0 % 2) == 0) by (nonlinear_arith)
                requires m0 % 2 == 0;
        }
        let h = m / 2;
        proof {
            assert(m0 == 2 * (h as int) + m0 % 2);
            assert(big_p * m0 == big_p * (2 * (h as int)) + big_p * (m0 % 2)) by (nonlinear_arith)
                requires m0 == 2 * (h as int) + m0 % 2;
            assert(acc_q * d + acc_r == big_a + big_p * (m0 % 2));
            assert(acc_q * d <= (rem as int) * (n as int)) by (nonlinear_arith)
                requires
                    acc_q * d + acc_r == big_a + big_p * (m0 % 2),
                    acc_r >= 0,
                    big_p * (2 * (h as int)) >= 0,
                    (rem as int) * (n as int) == big_a + big_p * m0,
                    big_p * m0 == big_p * (2 * (h as int)) + big_p * (m0 % 2);
            assert(acc_q < n) by (nonlinear_arith)
                requires acc_q * d <= (rem as int) * (n as int), (rem as int) * (n as int) < (d as int) * (n as int), d > 0;
        }
        m = h;
        if m > 0 {
            proof {
                assert(2 * pw <= n) by (nonlinear_arith)
                    requires m0 * pw <= n, m0 >= 2 * h, h >= 1, pw >= 1;
                assert(big_p < (d as int) * pw) by (nonlinear_arith)
                    requires big_p == (rem as int) * pw, rem < d, pw >= 1;
                assert(p_q < pw) by (nonlinear_arith)
                    requires p_q * d + p_r == big_p, big_p < (d as int) * pw, p_r >= 0, d > 0;
                assert(big_p * (2 * (h as int)) == (2 * big_p) * (h as int)) by (nonlinear_arith);
                assert((h as int) * (2 * pw) <= m0 * pw) by (nonlinear_arith)
                    requires m0 >= 2 * h, pw >= 1, h >= 0;
            }
            let s = add_mod(p_q, p_r, p_q, p_r, d);
            p_q = s.0;
            p_r = s.1;
            proof {
                assert(2 * ((rem as int) * pw) == (rem as int) * (2 * pw)) by (nonlinear_arith);
                assert((rem as int) * (2 * pw) < (d as int) * (2 * pw)) by (nonlinear_arith)
                    requires rem < d, pw >= 1;
                assert(p_q < 2 * pw) by (nonlinear_arith)
                    requires
                        p_q * d + p_r == (rem as int) * (2 * pw),
                        (rem as int) * (2 * pw) < (d as int) * (2 * pw),
                        p_r >= 0,
                        d > 0;
                pw = 2 * pw;
            }
        } else {
            proof {
                assert(big_p * 0 == 0) by (nonlinear_arith);
                assert(0 * pw == 0) by (nonlinear_arith);
            }
        }
    }
    // rem * n == acc_q * d + acc_r, so floor(a * n / d) == q * n + acc_q.
    proof {
        assert((p_q * d + p_r) * 0 == 0) by (nonlinear_arith);
        let an = (a as int) * (n as int);
        vstd::arithmetic::div_mod::lemma_fundamental_div_mod(a as int, d as int);
        assert(a as int == (q as int) * (d as int) + rem as int);
        assert(an == ((q as int) * (n as int) + acc_q as int) * (d as int) + acc_r as int)
            by (nonlinear_arith)
            requires
                a as int == (q as int) * (d as int) + rem as int,
                (rem as int) * (n as int) == (acc_q as int) * (d as int) + acc_r as int,
                an == (a as int) * (n as int);
        vstd::arithmetic::div_mod::lemma_fundamental_div_mod_converse(
            an,
            d as int,
            (q as int) * (n as int) + acc_q as int,
            acc_r as int,
        );
        assert((q as int) * (n as int) >= 0) by (nonlinear_arith)
            requires q >= 0, n >= 0;
    }
    match q.checked_mul(n as u128) {
        None => None,
        Some(qn) => qn.checked_add(acc_q),
    }
}

} // verus!
