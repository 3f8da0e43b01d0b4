//! Single-precision (binary32) rounding, on non-negative integers, done in
//! integer arithmetic: the sample coordinates of the icon scaler are
//! computed as `(x as f32 * w as f32 / d as f32) as u32`.
//!
//! A positive quotient `n / d` is brought into `[2^23, 2^24)` by doubling the
//! numerator (`u` times) or the denominator (`k` times); the 24-bit
//! significand is the quotient rounded to nearest, ties to even; the value
//! is the significand times `2^(k - u)`.

use vstd::prelude::*;
use vstd::arithmetic::div_mod::{
    lemma_div_denominator, lemma_fundamental_div_mod, lemma_fundamental_div_mod_converse,
    lemma_mod_pos_bound, lemma_div_pos_is_pos,
};

verus! {

/// `2^23`, the smallest 24-bit significand.
pub const SIGNIFICAND_LOW: u128 = 0x80_0000;

/// `2^24`, one past the largest 24-bit significand.
pub const SIGNIFICAND_HIGH: u128 = 0x100_0000;

/// How far `n / d` is below `2^23` (zero once it is not).
pub open spec fn up_gap(n: int, d: int) -> int {
    if n < SIGNIFICAND_LOW * d {
        SIGNIFICAND_LOW * d - n
    } else {
        0
    }
}

/// Doubles the numerator until the quotient is at least `2^23`, counting
/// the doublings.
pub open spec fn scale_up(n: int, d: int, u: nat) -> (int, nat)
    decreases up_gap(n, d),
{
    if n <= 0 || d <= 0 || n >= SIGNIFICAND_LOW * d {
        (n, u)
    } else {
        scale_up(2 * n, d, u + 1)
    }
}

/// How far `n / d` is at or above `2^24` (zero once it is not).
pub open spec fn down_gap(n: int, d: int) -> int {
    if n >= SIGNIFICAND_HIGH * d {
        n - SIGNIFICAND_HIGH * d + 1
    } else {
        0
    }
}

/// Doubles the denominator until the quotient is below `2^24`, counting
/// the doublings.
pub open spec fn scale_down(n: int, d: int, k: nat) -> (int, nat)
    decreases down_gap(n, d),
{
    if d <= 0 || n < SIGNIFICAND_HIGH * d {
        (d, k)
    } else {
        scale_down(n, 2 * d, k + 1)
    }
}

/// `n / d` rounded to the nearest integer, ties to the even one.
pub open spec fn round_half_even(n: int, d: int) -> int {
    let q = n / d;
    let r = n % d;
    if 2 * r > d || (2 * r == d && q % 2 == 1) {
        q + 1
    } else {
        q
    }
}

/// `v · 2^k`.
pub open spec fn times_pow2(v: int, k: nat) -> int
    decreases k,
{
    if k == 0 {
        v
    } else {
        2 * times_pow2(v, (k - 1) as nat)
    }
}

/// `⌊v / 2^k⌋`.
pub open spec fn div_pow2(v: int, k: nat) -> int
    decreases k,
{
    if k == 0 {
        v
    } else {
        div_pow2(v, (k - 1) as nat) / 2
    }
}

/// `⌊fl(n / d)⌋`, where `fl` rounds to the nearest binary32 value, ties to
/// even; 0 where `n` or `d` is not positive. For an integer `n` (with
/// `d == 1`) this is the binary32 value nearest to `n`.
pub open spec fn floor_binary32_quotient(n: int, d: int) -> int {
    if n <= 0 || d <= 0 {
        0
    } else {
        let (n1, u) = scale_up(n, d, 0);
        let (d1, k) = scale_down(n1, d, 0);
        let m = round_half_even(n1, d1);
        if u > 0 {
            div_pow2(m, u)
        } else {
            times_pow2(m, k)
        }
    }
}

/// `(x as f32 * w as f32 / d as f32) as u32` for `d ≥ 1`: each conversion,
/// the product and the quotient rounded to nearest binary32, the result
/// truncated and saturated at `u32::MAX`.
pub open spec fn binary32_sample(x: u32, w: u32, d: u32) -> u32 {
    let fx = floor_binary32_quotient(x as int, 1);
    let fw = floor_binary32_quotient(w as int, 1);
    let fd = floor_binary32_quotient(d as int, 1);
    let p = floor_binary32_quotient(fx * fw, 1);
    let v = floor_binary32_quotient(p, fd);
    if v > u32::MAX {
        u32::MAX
    } else {
        v as u32
    }
}

proof fn lemma_times_pow2_linear(v: int, k: nat)
    ensures
        times_pow2(v, k) == v * times_pow2(1, k),
        times_pow2(1, k) >= 1,
    decreases k,
{
    if k > 0 {
        lemma_times_pow2_linear(v, (k - 1) as nat);
        assert(2 * (v * times_pow2(1, (k - 1) as nat)) == v * (2 * times_pow2(1, (k - 1) as nat)))
            by (nonlinear_arith);
    }
}

proof fn lemma_div_pow2_shrinks(v: int, k: nat)
    requires
        v >= 0,
    ensures
        0 <= div_pow2(v, k) <= v,
    decreases k,
{
    if k > 0 {
        lemma_div_pow2_shrinks(v, (k - 1) as nat);
    }
}

/// `⌊fl(n / d)⌋` (see `floor_binary32_quotient`).
fn floor_binary32_quotient_exec(n: u128, d: u128) -> (r: u128)
    requires
        n <= 0x40_0000_0000_0000_0000,
        d <= 0x4_0000_0000,
    ensures
        r == floor_binary32_quotient(n as int, d as int),
        r <= SIGNIFICAND_HIGH + 2 * n,
{
    if n == 0 || d == 0 {
        return 0;
    }
    let ghost n0 = n as int;
    let ghost d0 = d as int;
    // Bring the quotient up to at least 2^23.
    let mut n1: u128 = n;
    let mut u: u128 = 0;
    while n1 < SIGNIFICAND_LOW * d
        invariant
            1 <= d <= 0x4_0000_0000,
            d == d0,
            1 <= n1,
            n1 <= n0 || n1 < SIGNIFICAND_HIGH * d,
            u > 0 ==> n1 < SIGNIFICAND_HIGH * d,
            u <= n1,
            scale_up(n0, d0, 0) == scale_up(n1 as int, d0, u as nat),
            n0 <= 0x40_0000_0000_0000_0000,
        decreases up_gap(n1 as int, d as int),
    {
        n1 = 2 * n1;
        u = u + 1;
    }
    // Bring the quotient below 2^24.
    let mut d1: u128 = d;
    let mut k: u128 = 0;
    while n1 >= SIGNIFICAND_HIGH * d1
        invariant
            1 <= d1 <= n1 || d1 == d0,
            1 <= d1,
            n1 <= 0x40_0000_0000_0000_0000,
            u > 0 ==> k == 0 && n1 < SIGNIFICAND_HIGH * d1,
            d1 <= 0x40_0000_0000_0000_0000,
            k > 0 ==> SIGNIFICAND_LOW * d1 <= n1,
            k <= d1,
            d1 == times_pow2(d0, k as nat),
            scale_down(n1 as int, d0, 0) == scale_down(n1 as int, d1 as int, k as nat),
        decreases down_gap(n1 as int, d1 as int),
    {
        assert(u == 0);
        d1 = 2 * d1;
        k = k + 1;
    }
    let q: u128 = n1 / d1;
    let rem: u128 = n1 % d1;
    let m: u128 = if 2 * rem > d1 || (2 * rem == d1 && q % 2 == 1) {
        q + 1
    } else {
        q
    };
    assert(n1 < SIGNIFICAND_HIGH * d1);
    assert(q < SIGNIFICAND_HIGH) by (nonlinear_arith)
        requires
            n1 < SIGNIFICAND_HIGH * d1,
            d1 >= 1,
            q == n1 / d1,
    ;
    assert(m == round_half_even(n1 as int, d1 as int));
    if u > 0 {
        let mut v: u128 = m;
        let mut i: u128 = 0;
        while i < u
            invariant
                i <= u,
                v == div_pow2(m as int, i as nat),
                m <= SIGNIFICAND_HIGH,
            decreases u - i,
        {
            proof {
                lemma_div_pow2_shrinks(m as int, i as nat);
            }
            v = v / 2;
            i = i + 1;
        }
        proof {
            lemma_div_pow2_shrinks(m as int, u as nat);
        }
        v
    } else {
        let mut v: u128 = m;
        let mut i: u128 = 0;
        proof {
            lemma_times_pow2_linear(d0, k as nat);
            lemma_times_pow2_linear(SIGNIFICAND_HIGH as int, k as nat);
            if k > 0 {
                assert(SIGNIFICAND_HIGH * times_pow2(1, k as nat) <= SIGNIFICAND_HIGH * d1)
                    by (nonlinear_arith)
                    requires
                        d1 == d0 * times_pow2(1, k as nat),
                        d0 >= 1,
                        times_pow2(1, k as nat) >= 1,
                ;
            }
        }
        while i < k
            invariant
                i <= k,
                v == times_pow2(m as int, i as nat),
                m <= SIGNIFICAND_HIGH,
                times_pow2(SIGNIFICAND_HIGH as int, k as nat) <= SIGNIFICAND_HIGH + 2 * n0,
                n0 <= 0x40_0000_0000_0000_0000,
            decreases k - i,
        {
            proof {
                lemma_times_pow2_monotone(m as int, SIGNIFICAND_HIGH as int, (i + 1) as nat);
                lemma_times_pow2_grows(SIGNIFICAND_HIGH as int, (i + 1) as nat, k as nat);
            }
            v = 2 * v;
            i = i + 1;
        }
        proof {
            lemma_times_pow2_monotone(m as int, SIGNIFICAND_HIGH as int, k as nat);
        }
        v
    }
}

proof fn lemma_times_pow2_monotone(a: int, b: int, k: nat)
    requires
        0 <= a <= b,
    ensures
        0 <= times_pow2(a, k) <= times_pow2(b, k),
    decreases k,
{
    if k > 0 {
        lemma_times_pow2_monotone(a, b, (k - 1) as nat);
    }
}

proof fn lemma_times_pow2_grows(v: int, i: nat, k: nat)
    requires
        v >= 0,
        i <= k,
    ensures
        times_pow2(v, i) <= times_pow2(v, k),
    decreases k,
{
    if i < k {
        lemma_times_pow2_grows(v, i, (k - 1) as nat);
        lemma_times_pow2_monotone(0, v, (k - 1) as nat);
    }
}

/// The sample coordinate `(x as f32 * w as f32 / d as f32) as u32`, for
/// `d ≥ 1` (see `binary32_sample`).
pub fn sample_coordinate(x: u32, w: u32, d: u32) -> (r: u32)
    requires
        d >= 1,
    ensures
        r == binary32_sample(x, w, d),
{
    let fx = floor_binary32_quotient_exec(x as u128, 1);
    let fw = floor_binary32_quotient_exec(w as u128, 1);
    let fd = floor_binary32_quotient_exec(d as u128, 1);
    assert(fx * fw <= 0x10_0000_0000_0000_0000) by (nonlinear_arith)
        requires
            fx <= SIGNIFICAND_HIGH + 2 * 0xffff_ffff,
            fw <= SIGNIFICAND_HIGH + 2 * 0xffff_ffff,
    ;
    let p = floor_binary32_quotient_exec(fx * fw, 1);
    let v = floor_binary32_quotient_exec(p, fd);
    if v > u32::MAX as u128 {
        u32::MAX
    } else {
        v as u32
    }
}

proof fn lemma_div_pow2_is_division(v: int, k: nat)
    requires
        v >= 0,
    ensures
        div_pow2(v, k) == v / times_pow2(1, k),
    decreases k,
{
    lemma_times_pow2_linear(1, k);
    if k > 0 {
        lemma_div_pow2_is_division(v, (k - 1) as nat);
        lemma_times_pow2_linear(1, (k - 1) as nat);
        lemma_div_denominator(v, times_pow2(1, (k - 1) as nat), 2);
        assert(times_pow2(1, (k - 1) as nat) * 2 == times_pow2(1, k));
    }
}

proof fn lemma_scale_up_facts(n: int, d: int, u: nat)
    requires
        n >= 1,
        d >= 1,
    ensures
        ({
            let (n1, u1) = scale_up(n, d, u);
            &&& u1 >= u
            &&& n1 == n * times_pow2(1, (u1 - u) as nat)
            &&& n1 >= SIGNIFICAND_LOW * d
            &&& (u1 > u ==> n1 < SIGNIFICAND_HIGH * d)
            &&& (u1 == u ==> n1 == n)
        }),
    decreases up_gap(n, d),
{
    lemma_times_pow2_linear(1, 0);
    assert(times_pow2(1, 0) == 1);
    if n >= SIGNIFICAND_LOW * d {
        assert(scale_up(n, d, u) == (n, u));
        assert(n * times_pow2(1, 0) == n);
    } else {
        assert(scale_up(n, d, u) == scale_up(2 * n, d, u + 1));
        lemma_scale_up_facts(2 * n, d, u + 1);
        let (n1, u1) = scale_up(2 * n, d, u + 1);
        let t = times_pow2(1, (u1 - (u + 1)) as nat);
        lemma_times_pow2_linear(1, (u1 - u) as nat);
        assert(times_pow2(1, (u1 - u) as nat) == 2 * t);
        assert(n1 == n * times_pow2(1, (u1 - u) as nat)) by (nonlinear_arith)
            requires
                n1 == (2 * n) * t,
                times_pow2(1, (u1 - u) as nat) == 2 * t,
        ;
        if u1 == u + 1 {
            assert(t == 1);
            assert(n1 == 2 * n);
        }
    }
}

/// Below `2^24`, single-precision rounding of a quotient does not reach
/// the next integer: `⌊fl(p / d)⌋ = ⌊p / d⌋`.
pub proof fn lemma_small_quotient_exact(p: int, d: int)
    requires
        0 <= p < SIGNIFICAND_HIGH,
        1 <= d,
    ensures
        floor_binary32_quotient(p, d) == p / d,
{
    if p > 0 {
        lemma_scale_up_facts(p, d, 0);
        let (n1, u) = scale_up(p, d, 0);
        let t = times_pow2(1, u);
        lemma_times_pow2_linear(1, u);
        if u == 0 {
            // Then p ≥ 2^23·d, so d = 1 and the quotient is p itself.
            assert(d == 1) by (nonlinear_arith)
                requires
                    p >= SIGNIFICAND_LOW * d,
                    p < SIGNIFICAND_HIGH,
                    d >= 1,
            ;
            assert(scale_down(n1, d, 0) == (d, 0nat));
            assert(round_half_even(p, 1) == p);
        } else {
            assert(scale_down(n1, d, 0) == (d, 0nat));
            let q = p / d;
            let r = p % d;
            lemma_fundamental_div_mod(p, d);
            lemma_mod_pos_bound(p, d);
            lemma_div_pos_is_pos(p, d);
            // 2^u > d / 2, since p·2^u ≥ 2^23·d and p < 2^24.
            assert(2 * t > d) by (nonlinear_arith)
                requires
                    p * t >= SIGNIFICAND_LOW * d,
                    p < SIGNIFICAND_HIGH,
                    p >= 1,
                    t >= 1,
            ;
            let a = (r * t) / d;
            let b = (r * t) % d;
            lemma_fundamental_div_mod(r * t, d);
            lemma_mod_pos_bound(r * t, d);
            assert(r * t >= 0) by (nonlinear_arith)
                requires
                    r >= 0,
                    t >= 1,
            ;
            lemma_div_pos_is_pos(r * t, d);
            assert(n1 == (q * t + a) * d + b) by (nonlinear_arith)
                requires
                    n1 == p * t,
                    p == d * q + r,
                    r * t == d * a + b,
            ;
            lemma_fundamental_div_mod_converse(n1, d, q * t + a, b);
            let m = round_half_even(n1, d);
            assert(m == q * t + a || m == q * t + a + 1);
            assert(q * t + a < (q + 1) * t) by (nonlinear_arith)
                requires
                    r * t == d * a + b,
                    0 <= b,
                    r < d,
                    t >= 1,
                    d >= 1,
            ;
            if m == q * t + a + 1 {
                // Rounding up needs 2b ≥ d; then a < t - 1.
                assert(2 * b >= d);
                assert(q * t + a + 1 < (q + 1) * t) by (nonlinear_arith)
                    requires
                        r * t == d * a + b,
                        2 * b >= d,
                        b < d,
                        r < d,
                        2 * t > d,
                        t >= 1,
                        d >= 1,
                        a >= 0,
                ;
            }
            assert(q * t <= m < (q + 1) * t) by (nonlinear_arith)
                requires
                    m == q * t + a || m == q * t + a + 1,
                    a >= 0,
                    q * t + a < (q + 1) * t,
                    m == q * t + a + 1 ==> q * t + a + 1 < (q + 1) * t,
            ;
            assert((q + 1) * t == q * t + t) by (nonlinear_arith);
            assert(0 <= m - q * t < t);
            lemma_fundamental_div_mod_converse(m, t, q, m - q * t);
            lemma_div_pow2_is_division(m, u);
        }
    }
}

/// For operands whose product stays below `2^24`, the single-precision
/// sample coordinate is the exact floor `⌊x·w/d⌋`.
pub proof fn lemma_small_sample_exact(x: u32, w: u32, d: u32)
    requires
        d >= 1,
        x * w < SIGNIFICAND_HIGH,
        w < SIGNIFICAND_HIGH,
        d < SIGNIFICAND_HIGH,
        x < SIGNIFICAND_HIGH,
    ensures
        binary32_sample(x, w, d) == x * w / (d as int),
{
    lemma_small_quotient_exact(x as int, 1);
    lemma_small_quotient_exact(w as int, 1);
    lemma_small_quotient_exact(d as int, 1);
    lemma_small_quotient_exact(x * w, 1);
    lemma_small_quotient_exact(x * w, d as int);
    assert(x * w / (d as int) <= x * w) by (nonlinear_arith)
        requires
            d >= 1,
            x * w >= 0,
    ;
}

} // verus!
