//! Rounding a ratio of integers to the nearest binary32 magnitude.

use vstd::prelude::*;
use vstd::arithmetic::power2::pow2;
use vstd::arithmetic::power2::lemma_pow2_pos;
use vstd::arithmetic::power2::lemma_pow2_adds;
use vstd::arithmetic::power2::lemma_pow2_unfold;
use vstd::arithmetic::power2::lemma_pow2_strictly_increases;
use vstd::arithmetic::power2::lemma2_to64;
use vstd::arithmetic::power2::lemma2_to64_rest;
use vstd::arithmetic::div_mod::lemma_fundamental_div_mod;
use vstd::arithmetic::div_mod::lemma_div_is_ordered_by_denominator;
use crate::ieee::INFINITY_BITS;
use crate::ieee::weight;
use crate::ieee::is_floor;
use crate::ieee::nearer;
use crate::ieee::nearest;
use crate::ieee::lemma_weight_of_parts;
use crate::ieee::lemma_weight_step;
use crate::ieee::lemma_weight_small;
use crate::ieee::lemma_nearest_from_floor;

verus! {

/// The power of two that `exp` asks to multiply by: 2^exp where `exp` is
/// positive, and 1 elsewhere.
pub open spec fn scale_up(exp: int) -> int {
    if exp >= 0 {
        pow2(exp as nat) as int
    } else {
        1
    }
}

/// The power of two that `exp` asks to divide by: 2^-exp where `exp` is
/// negative, and 1 elsewhere.
pub open spec fn scale_down(exp: int) -> int {
    if exp < 0 {
        pow2((-exp) as nat) as int
    } else {
        1
    }
}

/// `num / den` is the rational `n / d * 2^exp`.
pub open spec fn same_ratio(num: int, den: int, n: int, d: int, exp: int) -> bool {
    num * d * scale_down(exp) == n * scale_up(exp) * den
}

proof fn lemma_cancel(x: int, y: int, c: int)
    by (nonlinear_arith)
    requires
        c > 0,
    ensures
        x * c <= y * c <==> x <= y,
        x * c < y * c <==> x < y,
        x * c == y * c <==> x == y,
{
}

/// With `num / den == n / d * a / b`, `n * k == q * d + r` and
/// `u * k * b == p * a`, the ratio `num / den` stands to `c * u` as
/// `q * d + r` stands to `c * p * d`.
proof fn lemma_compare_scaled(
    num: int,
    den: int,
    n: int,
    d: int,
    a: int,
    b: int,
    k: int,
    p: int,
    u: int,
    q: int,
    r: int,
    c: int,
    f: int,
)
    requires
        den > 0,
        d > 0,
        a > 0,
        b > 0,
        k > 0,
        f > 0,
        num * d * b == n * a * den,
        n * k == q * d + r,
        u * k * b == p * a,
    ensures
        c * u * den <= f * num <==> c * p * d <= f * (q * d + r),
        c * u * den < f * num <==> c * p * d < f * (q * d + r),
        c * u * den == f * num <==> c * p * d == f * (q * d + r),
{
    let x = d * b * k;
    let w = a * den;
    assert(x > 0) by (nonlinear_arith)
        requires
            x == d * b * k,
            d > 0,
            b > 0,
            k > 0,
    ;
    assert(w > 0) by (nonlinear_arith)
        requires
            w == a * den,
            a > 0,
            den > 0,
    ;
    let e = num * d * b;
    assert((f * num) * x == f * (e * k)) by (nonlinear_arith)
        requires
            x == d * b * k,
            e == num * d * b,
    ;
    assert(e * k == (n * k) * w) by (nonlinear_arith)
        requires
            e == n * a * den,
            w == a * den,
    ;
    assert(f * ((q * d + r) * w) == (f * (q * d + r)) * w) by (nonlinear_arith);
    assert((f * num) * x == (f * (q * d + r)) * w);
    let g = u * k * b;
    assert((c * u * den) * x == (c * d) * (g * den)) by (nonlinear_arith)
        requires
            x == d * b * k,
            g == u * k * b,
    ;
    assert((c * d) * ((p * a) * den) == (c * p * d) * w) by (nonlinear_arith)
        requires
            w == a * den,
    ;
    assert((c * u * den) * x == (c * p * d) * w);
    lemma_cancel(c * u * den, f * num, x);
    lemma_cancel(c * p * d, f * (q * d + r), w);
}

/// Rounds `n / d * 2^exp`, a rational in units of 2^-149, to the nearest
/// magnitude, ties to even. `num / den` is the same rational as the caller
/// knows it.
pub(crate) fn round_ratio(
    n: u64,
    d: u64,
    exp: i32,
    Ghost(num): Ghost<int>,
    Ghost(den): Ghost<int>,
) -> (m: u32)
    requires
        n < 0x8000_0000_0000_0000,
        0 < d <= 0x100_0000,
        -1000 <= exp <= 1000,
        den > 0,
        same_ratio(num, den, n as int, d as int, exp as int),
    ensures
        m == nearest(num, den),
        m <= INFINITY_BITS,
{
    let ghost a = scale_up(exp as int);
    let ghost b = scale_down(exp as int);
    proof {
        if exp >= 0 {
            lemma_pow2_pos(exp as nat);
        } else {
            lemma_pow2_pos((-exp) as nat);
        }
        lemma_weight_small(0);
        lemma_weight_small(1);
    }
    if n == 0 {
        proof {
            assert(num == 0) by (nonlinear_arith)
                requires
                    num * d * b == 0 * a * den,
                    d > 0,
                    b > 0,
            ;
            assert(weight(0) * den == 0);
            assert(weight(1) * den == den);
            assert(is_floor(0, num, den));
            lemma_nearest_from_floor(0, num, den);
        }
        return 0;
    }
    // The quotient to 64 places after the point, and whether anything is
    // left behind it. A whole number of more than 24 bits needs no places.
    let whole: bool = d == 1 && n >= 0x100_0000;
    let places: i32 = if whole {
        0
    } else {
        64
    };
    let big: u128 = if whole {
        n as u128
    } else {
        (n as u128) * 0x1_0000_0000_0000_0000u128
    };
    let wide: u128 = d as u128;
    let q: u128 = big / wide;
    let r: u128 = big % wide;
    let ghost k: int = pow2(places as nat) as int;
    proof {
        lemma2_to64();
        lemma2_to64_rest();
        lemma_pow2_adds(64, 63);
        lemma_fundamental_div_mod(big as int, wide as int);
        if !whole {
            lemma_div_is_ordered_by_denominator(big as int, wide as int, 0x100_0000);
        }
        assert(d * q == q * d) by (nonlinear_arith);
    }
    // The quotient is halved until 24 bits of it are left and it counts
    // whole units; what is shifted out is kept to round by.
    let e0: i32 = exp - places;
    let mut cur: u128 = q;
    let mut p: u128 = 1;
    let mut low: u128 = 0;
    let mut sh: i32 = 0;
    while cur >= 0x100_0000 || (sh + e0 < 0 && cur > 0)
        invariant
            q == cur * p + low,
            0 <= low < p,
            0 <= sh <= 127,
            p == pow2(sh as nat),
            cur < pow2((127 - sh) as nat),
            cur >= 0x80_0000 || sh + e0 <= 0,
            sh >= 1 || cur >= 0x100_0000,
            -1064 <= e0 <= 1000,
            pow2(127) == 0x8000_0000_0000_0000_0000_0000_0000_0000,
        decreases cur,
    {
        proof {
            lemma2_to64();
            // Something is left to halve, so not all 127 places are used.
            if sh == 127 {
                assert(cur < 1);
            }
            lemma_pow2_unfold((127 - sh) as nat);
            lemma_pow2_unfold((sh + 1) as nat);
            lemma_pow2_adds(sh as nat, (127 - sh) as nat);
            lemma_pow2_pos((126 - sh) as nat);
            let x = pow2((126 - sh) as nat) as int;
            assert(p * 2 <= p * (2 * x)) by (nonlinear_arith)
                requires
                    p > 0,
                    x >= 1,
            ;
        }
        let bit: u128 = cur % 2;
        let ghost old_cur = cur;
        let ghost old_low = low;
        cur = cur / 2;
        if bit == 1 {
            low = low + p;
        }
        assert(old_cur * p + old_low == cur * (p * 2) + low) by (nonlinear_arith)
            requires
                old_cur == 2 * cur + bit,
                (bit == 0 && low == old_low) || (bit == 1 && low == old_low + p),
        ;
        p = p * 2;
        sh = sh + 1;
    }
    if sh + e0 < 0 {
        proof {
            // The ratio is below half of the smallest magnitude.
            let t = (-(sh + e0)) as nat;
            let tt = pow2(t) as int;
            lemma_pow2_pos(t);
            lemma_pow2_unfold(t);
            lemma_pow2_pos((t - 1) as nat);
            if exp >= 0 {
                lemma_pow2_adds(exp as nat, sh as nat);
                lemma_pow2_adds((exp + sh) as nat, t);
            } else {
                lemma_pow2_adds(sh as nat, t);
                lemma_pow2_adds((-exp) as nat, places as nat);
            }
            assert(a * p * tt == b * k);
            assert(num * tt < den) by (nonlinear_arith)
                requires
                    num * d * b == n * a * den,
                    n * k == q * d + r,
                    0 <= r < d,
                    q < p,
                    a * p * tt == b * k,
                    a > 0,
                    b > 0,
                    d > 0,
                    den > 0,
                    p > 0,
                    tt > 0,
                    k > 0,
            ;
            assert(num >= 0) by (nonlinear_arith)
                requires
                    num * d * b == n * a * den,
                    a > 0,
                    b > 0,
                    d > 0,
                    den > 0,
                    n > 0,
            ;
            assert(2 * num <= num * tt) by (nonlinear_arith)
                requires
                    num >= 0,
                    tt >= 2,
            ;
            assert(weight(0) * den == 0);
            assert(weight(1) * den == den);
            assert(is_floor(0, num, den));
            lemma_nearest_from_floor(0, num, den);
        }
        return 0;
    }
    let u: i32 = sh + e0;
    let ghost uu = pow2(u as nat) as int;
    proof {
        lemma_pow2_pos(u as nat);
        if exp >= 0 {
            lemma_pow2_adds(u as nat, places as nat);
            lemma_pow2_adds(sh as nat, exp as nat);
        } else {
            lemma_pow2_adds(u as nat, places as nat);
            lemma_pow2_adds((u + places) as nat, (-exp) as nat);
        }
        assert(uu * k * b == p * a);
    }
    if u >= 254 {
        proof {
            lemma_weight_of_parts(0x80_0000, 254);
            if u > 254 {
                lemma_pow2_strictly_increases(254, u as nat);
            }
            lemma_compare_scaled(
                num,
                den,
                n as int,
                d as int,
                a,
                b,
                k,
                p as int,
                uu,
                q as int,
                r as int,
                cur as int,
                1,
            );
            assert(cur * p * d <= 1 * (q * d + r)) by (nonlinear_arith)
                requires
                    q == cur * p + low,
                    low >= 0,
                    r >= 0,
                    d > 0,
            ;
            let top = pow2(254) as int;
            lemma_pow2_pos(254);
            assert(0x80_0000 * top * den <= cur * uu * den) by (nonlinear_arith)
                requires
                    cur >= 0x80_0000,
                    uu >= top,
                    top > 0,
                    den > 0,
            ;
        }
        return INFINITY_BITS;
    }
    let half: u128 = p / 2;
    let floor: u32 = (cur as u32) + (u as u32) * 0x80_0000;
    let up: bool = low > half || (low == half && (r != 0 || cur % 2 == 1));
    proof {
        lemma_pow2_unfold(sh as nat);
        lemma_weight_of_parts(cur as int, u as nat);
        lemma_weight_step(floor as int);
        let c = cur as int;
        assert((c + 1) * uu == c * uu + uu) by (nonlinear_arith);
        // The floor.
        lemma_compare_scaled(
            num,
            den,
            n as int,
            d as int,
            a,
            b,
            k,
            p as int,
            uu,
            q as int,
            r as int,
            c,
            1,
        );
        lemma_compare_scaled(
            num,
            den,
            n as int,
            d as int,
            a,
            b,
            k,
            p as int,
            uu,
            q as int,
            r as int,
            c + 1,
            1,
        );
        assert(c * p * d <= 1 * (q * d + r)) by (nonlinear_arith)
            requires
                q == c * p + low,
                low >= 0,
                r >= 0,
                d > 0,
        ;
        assert(1 * (q * d + r) < (c + 1) * p * d) by (nonlinear_arith)
            requires
                q == c * p + low,
                0 <= low < p,
                0 <= r < d,
        ;
        assert(is_floor(floor as int, num, den));
        lemma_nearest_from_floor(floor as int, num, den);
        // The half-way point.
        lemma_compare_scaled(
            num,
            den,
            n as int,
            d as int,
            a,
            b,
            k,
            p as int,
            uu,
            q as int,
            r as int,
            2 * c + 1,
            2,
        );
        let twice_mid = (weight(floor as int) + weight(floor as int + 1)) * den;
        assert(twice_mid == (2 * c + 1) * uu * den) by (nonlinear_arith)
            requires
                twice_mid == (c * uu + (c * uu + uu)) * den,
        ;
        let lhs = (2 * c + 1) * p * d;
        let rhs = 2 * (q * d + r);
        assert(rhs - lhs == (2 * low - p) * d + 2 * r) by (nonlinear_arith)
            requires
                lhs == (2 * c + 1) * p * d,
                rhs == 2 * (q * d + r),
                q == c * p + low,
        ;
        let gap = 2 * low - p;
        if gap > 0 {
            assert(gap * d + 2 * r > 0) by (nonlinear_arith)
                requires
                    gap >= 1,
                    d > 0,
                    r >= 0,
            ;
        } else if gap < 0 {
            assert(gap == 2 * (low - half));
            assert(gap * d + 2 * r < 0) by (nonlinear_arith)
                requires
                    gap <= -2,
                    0 <= r < d,
            ;
        } else {
            assert(gap * d == 0) by (nonlinear_arith)
                requires
                    gap == 0,
            ;
        }
        assert(floor % 2 == cur % 2);
        assert(nearer(floor as int, num, den) == if up { floor + 1 } else { floor as int });
    }
    if up {
        floor + 1
    } else {
        floor
    }
}

} // verus!
