//! Arithmetic on IEEE 754 doubles of moderate size, carried out on integers.
//!
//! A positive double is written as `mantissa / unit`, where `unit` is the power of two that
//! makes `mantissa` a number of 53 bits.  Every operation below computes the exact quotient of
//! two integers and rounds it once, to nearest, ties to even, as the hardware does.
use vstd::prelude::*;

verus! {

/// The smallest mantissa of 53 bits, 2^52.
pub const MANTISSA_MIN: u128 = 0x10_0000_0000_0000;

/// The largest denominator for which no intermediate value leaves 128 bits, 2^64.
pub const DENOMINATOR_MAX: u128 = 0x1_0000_0000_0000_0000;

/// 2^52, the smallest mantissa.
#[verifier::inline]
pub open spec fn min_mantissa() -> nat {
    0x10_0000_0000_0000
}

/// 2^53, one more than the largest mantissa.
#[verifier::inline]
pub open spec fn mantissa_end() -> nat {
    0x20_0000_0000_0000
}

/// The integer nearest to `n / d`; of two that are equally near, the even one.
pub open spec fn round_half_even(n: nat, d: nat) -> nat {
    let quotient = n / d;
    let remainder = n % d;
    if 2 * remainder < d || (2 * remainder == d && quotient % 2 == 0) {
        quotient
    } else {
        quotient + 1
    }
}

/// The least power of two `u` with `n / d * u >= 2^52`: how many spacings of doubles near `n / d`
/// make one.
pub open spec fn binade_unit(n: nat, d: nat) -> nat
    decreases mantissa_end() * d - n,
{
    if n == 0 || n >= min_mantissa() * d {
        1
    } else {
        2 * binade_unit(2 * n, d)
    }
}

/// The double nearest to `n / d`, as a pair of its mantissa and its unit.
pub open spec fn nearest_double(n: nat, d: nat) -> (nat, nat) {
    let unit = binade_unit(n, d);
    (round_half_even(n * unit, d), unit)
}

/// The integer part of the product of `x` and the double `factor`, where the product is rounded to
/// a double before the fraction is cut off.
pub open spec fn scaled(x: nat, factor: (nat, nat)) -> nat {
    if x == 0 {
        0
    } else {
        let product = nearest_double(x * factor.0, factor.1);
        product.0 / product.1
    }
}

/// The double nearest to `k` percent.
pub open spec fn percent(k: nat) -> (nat, nat) {
    nearest_double(k, 100)
}

/// One plus `v` percent: `v / 100` is rounded to a double, then the sum is.
pub open spec fn one_plus_percent(v: int) -> (nat, nat) {
    if v == 0 {
        nearest_double(1, 1)
    } else if v > 0 {
        let r = percent(v as nat);
        nearest_double(r.1 + r.0, r.1)
    } else {
        let r = percent((-v) as nat);
        nearest_double((r.1 - r.0) as nat, r.1)
    }
}

/// The double `factor` is `k` percent, up to one part in 2^40 of one percent.
pub open spec fn close_to_percent(factor: (nat, nat), k: nat) -> bool {
    &&& factor.1 >= 1
    &&& 0x100_0000_0000 * (100 * factor.0) <= 0x100_0000_0000 * (k * factor.1) + factor.1
    &&& 0x100_0000_0000 * (k * factor.1) <= 0x100_0000_0000 * (100 * factor.0) + factor.1
}

/// A positive double.
#[derive(Clone, Copy)]
pub struct Double {
    pub mantissa: u128,
    pub unit: u128,
}

impl View for Double {
    type V = (nat, nat);

    open spec fn view(&self) -> (nat, nat) {
        (self.mantissa as nat, self.unit as nat)
    }
}

/// The unit scales `n / d` into the range of mantissas.
pub proof fn lemma_binade_unit(n: nat, d: nat)
    requires
        0 < n < mantissa_end() * d,
        0 < d,
    ensures
        min_mantissa() * d <= n * binade_unit(n, d) < mantissa_end() * d,
        binade_unit(n, d) >= 1,
    decreases mantissa_end() * d - n,
{
    if n < min_mantissa() * d {
        lemma_binade_unit(2 * n, d);
        let u = binade_unit(2 * n, d);
        assert(n * (2 * u) == 2 * n * u) by (nonlinear_arith);
    } else {
        assert(n * 1 == n);
    }
}

/// Rounding to the nearest integer is off by half a unit at most.
pub proof fn lemma_round_half_even(n: nat, d: nat)
    requires
        0 < d,
    ensures
        2 * (round_half_even(n, d) * d) <= 2 * n + d,
        2 * n <= 2 * (round_half_even(n, d) * d) + d,
{
    let q = n / d;
    let r = n % d;
    vstd::arithmetic::div_mod::lemma_fundamental_div_mod(n as int, d as int);
    assert(n == d * q + r);
    assert(q * d == d * q) by (nonlinear_arith);
    assert((q + 1) * d == d * q + d) by (nonlinear_arith);
}

/// What is known of the double nearest to `n / d`: its mantissa is at most 2^53, and it differs
/// from `n / d` by half of its spacing at most.
pub proof fn lemma_nearest_double(n: nat, d: nat)
    requires
        0 < n < mantissa_end() * d,
        0 < d,
    ensures
        ({
            let (m, u) = nearest_double(n, d);
            &&& 1 <= u
            &&& min_mantissa() <= m <= mantissa_end()
            &&& min_mantissa() * d <= n * u < mantissa_end() * d
            &&& 2 * (m * d) <= 2 * (n * u) + d
            &&& 2 * (n * u) <= 2 * (m * d) + d
        }),
{
    let u = binade_unit(n, d);
    lemma_binade_unit(n, d);
    let t = n * u;
    lemma_round_half_even(t, d);
    let m = round_half_even(t, d);
    let q = t / d;
    vstd::arithmetic::div_mod::lemma_fundamental_div_mod(t as int, d as int);
    let r = t % d;
    assert(t == d * q + r);
    assert(q >= min_mantissa()) by (nonlinear_arith)
        requires
            min_mantissa() * d <= t,
            t == d * q + r,
            0 <= r < d,
    ;
    assert(q < mantissa_end()) by (nonlinear_arith)
        requires
            t < mantissa_end() * d,
            t == d * q + r,
            0 <= r < d,
    ;
}

/// Where a number lies halfway between two doubles, the one with the even mantissa is taken.
pub proof fn halves_round_to_even(n: nat, d: nat)
    requires
        0 < n < mantissa_end() * d,
        0 < d,
    ensures
        ({
            let (m, u) = nearest_double(n, d);
            2 * (m * d) == 2 * (n * u) + d || 2 * (n * u) == 2 * (m * d) + d ==> m % 2 == 0
        }),
{
    let u = binade_unit(n, d);
    let t = n * u;
    let q = t / d;
    let r = t % d;
    vstd::arithmetic::div_mod::lemma_fundamental_div_mod(t as int, d as int);
    assert(q * d == d * q) by (nonlinear_arith);
    assert((q + 1) * d == d * q + d) by (nonlinear_arith);
}

/// Scaling cuts the fraction off the product, which is first rounded to a double; nothing scales to
/// nothing.
pub proof fn scaling_cuts_off_the_fraction(x: nat, factor: (nat, nat))
    requires
        0 < x * factor.0 < mantissa_end() * factor.1,
        0 < factor.1,
    ensures
        ({
            let (m, u) = nearest_double(x * factor.0, factor.1);
            scaled(x, factor) * u <= m < (scaled(x, factor) + 1) * u
        }),
        scaled(0, factor) == 0,
{
    lemma_nearest_double(x * factor.0, factor.1);
    let (m, u) = nearest_double(x * factor.0, factor.1);
    assert(x != 0) by {
        assert(0 * factor.0 == 0) by (nonlinear_arith);
    }
    let t = m / u;
    vstd::arithmetic::div_mod::lemma_fundamental_div_mod(m as int, u as int);
    assert(t * u == u * t) by (nonlinear_arith);
    assert((t + 1) * u == u * t + u) by (nonlinear_arith);
}

/// Dividing a percentage by a hundred gives a close double.
pub proof fn lemma_percent(k: nat)
    requires
        1 <= k <= 100,
    ensures
        close_to_percent(percent(k), k),
        min_mantissa() <= percent(k).0 <= mantissa_end(),
        min_mantissa() <= percent(k).1 < mantissa_end() * 100,
{
    lemma_nearest_double(k, 100);
    let (m, u) = percent(k);
    assert(u >= min_mantissa()) by (nonlinear_arith)
        requires
            min_mantissa() * 100 <= k * u,
            k <= 100,
    ;
    assert(u < mantissa_end() * 100) by (nonlinear_arith)
        requires
            k * u < mantissa_end() * 100,
            1 <= k,
    ;
}

/// The double nearest to nine tenths is close to ninety percent.
pub proof fn lemma_nine_tenths()
    ensures
        close_to_percent(nearest_double(9, 10), 90),
        min_mantissa() <= nearest_double(9, 10).0 <= mantissa_end(),
        min_mantissa() <= nearest_double(9, 10).1 < mantissa_end() * 10,
{
    lemma_nearest_double(9, 10);
}

/// Adding one to a small percentage gives a close double.
pub proof fn lemma_one_plus_percent(v: int)
    requires
        -5 <= v <= 5,
    ensures
        close_to_percent(one_plus_percent(v), (100 + v) as nat),
        min_mantissa() <= one_plus_percent(v).0 <= mantissa_end(),
        1 <= one_plus_percent(v).1 < mantissa_end() * 2,
{
    if v == 0 {
        lemma_nearest_double(1, 1);
    } else {
        let a: nat = if v > 0 { v as nat } else { (-v) as nat };
        let (r0, r1) = percent(a);
        lemma_percent(a);
        lemma_nearest_double(a, 100);
        assert(20 * r0 <= r1 + 20) by (nonlinear_arith)
            requires
                2 * (r0 * 100) <= 2 * (a * r1) + 100,
                a <= 5,
        ;
        let n: nat = if v > 0 { r1 + r0 } else { (r1 - r0) as nat };
        assert(r1 <= 2 * n && n <= 2 * r1);
        assert(0 < n < mantissa_end() * r1);
        lemma_nearest_double(n, r1);
        let (f0, f1) = nearest_double(n, r1);
        assert(f1 < mantissa_end() * 2) by (nonlinear_arith)
            requires
                n * f1 < mantissa_end() * r1,
                r1 <= 2 * n,
                r1 >= 1,
        ;
        assert(2 * f1 >= min_mantissa()) by (nonlinear_arith)
            requires
                min_mantissa() * r1 <= n * f1,
                n <= 2 * r1,
                r1 >= 1,
        ;
        let k = (100 + v) as nat;
        // `100 * n` is `k * r1` up to 50, as `100 * r0` is `a * r1` up to 50.
        assert(-50 <= 100 * n - k * r1 <= 50) by (nonlinear_arith)
            requires
                2 * (r0 * 100) <= 2 * (a * r1) + 100,
                2 * (a * r1) <= 2 * (r0 * 100) + 100,
                (v > 0 && a == v && n == r1 + r0) || (v < 0 && a == -v && n == r1 - r0),
                k == 100 + v,
        ;
        let e = 100 * f0 - k * f1;
        assert(e * r1 <= 50 * f1 + 50 * r1 && -(e * r1) <= 50 * f1 + 50 * r1) by (nonlinear_arith)
            requires
                e == 100 * f0 - k * f1,
                -50 <= 100 * n - k * r1 <= 50,
                2 * (f0 * r1) <= 2 * (n * f1) + r1,
                2 * (n * f1) <= 2 * (f0 * r1) + r1,
        {
            let g = 100 * n - k * r1;
            assert(e * r1 == 100 * (f0 * r1) - (k * r1) * f1);
            assert((k * r1) * f1 == 100 * (n * f1) - g * f1);
            assert(-50 * f1 <= g * f1 <= 50 * f1);
        }
        assert(0x100_0000_0000 * e <= f1 && -(0x100_0000_0000 * e) <= f1) by (nonlinear_arith)
            requires
                e * r1 <= 50 * f1 + 50 * r1,
                -(e * r1) <= 50 * f1 + 50 * r1,
                r1 >= min_mantissa(),
                2 * f1 >= min_mantissa(),
        {
            assert(100 * 0x100_0000_0000 * f1 <= f1 * r1);
            assert(200 * 0x100_0000_0000 * r1 <= f1 * r1);
            assert(0x100_0000_0000 * (e * r1) <= f1 * r1);
            assert((0x100_0000_0000 * e) * r1 <= f1 * r1);
            assert(-(0x100_0000_0000 * e) * r1 <= f1 * r1);
        }
    }
}

/// Scaling by a factor close to `k` percent gives `k` percent of `x` without its fraction, or one
/// less.
pub proof fn lemma_scaled(x: nat, factor: (nat, nat), k: nat)
    requires
        x <= 0x8000_0000,
        1 <= k <= 110,
        close_to_percent(factor, k),
        factor.0 >= 1,
    ensures
        100 * scaled(x, factor) <= x * k,
        x * k <= 100 * scaled(x, factor) + 100,
{
    if x > 0 {
        let (m, u) = factor;
        assert(m <= 2 * u) by (nonlinear_arith)
            requires
                0x100_0000_0000 * (100 * m) <= 0x100_0000_0000 * (k * u) + u,
                k <= 110,
        ;
        let n = x * m;
        assert(0 < n <= 0x1_0000_0000 * u) by (nonlinear_arith)
            requires
                n == x * m,
                1 <= x <= 0x8000_0000,
                1 <= m <= 2 * u,
        ;
        assert(n < mantissa_end() * u);
        lemma_nearest_double(n, u);
        let (p, w) = nearest_double(n, u);
        let t = p / w;
        vstd::arithmetic::div_mod::lemma_fundamental_div_mod(p as int, w as int);
        let f = p % w;
        assert(p == w * t + f);
        assert(w >= 0x10_0000) by (nonlinear_arith)
            requires
                min_mantissa() * u <= n * w,
                n <= 0x1_0000_0000 * u,
                u >= 1,
        ;
        let xk = x * k;
        let e = 100 * n - xk * u;
        assert(0x200 * e <= u && -(0x200 * e) <= u) by (nonlinear_arith)
            requires
                e == 100 * n - xk * u,
                n == x * m,
                xk == x * k,
                0 < x <= 0x8000_0000,
                0x100_0000_0000 * (100 * m) <= 0x100_0000_0000 * (k * u) + u,
                0x100_0000_0000 * (k * u) <= 0x100_0000_0000 * (100 * m) + u,
        {
            let h = 100 * m - k * u;
            assert(e == x * h);
            assert(0x100_0000_0000 * h <= u && -(0x100_0000_0000 * h) <= u);
            assert(0x100_0000_0000 * (x * h) <= x * u);
            assert(-(0x100_0000_0000 * (x * h)) <= x * u);
            assert(x * u <= 0x8000_0000 * u);
        }
        // `100 * p` is `xk * w` up to `w`.
        assert(100 * p < (xk + 1) * w && xk * w < 100 * p + w) by (nonlinear_arith)
            requires
                2 * (p * u) <= 2 * (n * w) + u,
                2 * (n * w) <= 2 * (p * u) + u,
                e == 100 * n - xk * u,
                0x200 * e <= u,
                -(0x200 * e) <= u,
                w >= 0x10_0000,
                u >= 1,
        {
            assert(100 * (n * w) == e * w + (xk * w) * u);
            assert(0x200 * (e * w) <= u * w && -(0x200 * (e * w)) <= u * w);
            assert((100 * p) * u <= 100 * (n * w) + 50 * u);
            assert(100 * (n * w) <= (100 * p) * u + 50 * u);
            assert(0x10_0000 * u <= u * w);
            assert((100 * p) * u < (xk * w) * u + u * w);
            assert((xk * w) * u < (100 * p) * u + u * w);
            assert(u * w == w * u);
            assert((100 * p) * u < (xk * w + w) * u);
            assert((xk * w) * u < (100 * p + w) * u);
            assert((xk + 1) * w == xk * w + w);
        }
        assert(100 * t < xk + 1) by (nonlinear_arith)
            requires
                100 * p < (xk + 1) * w,
                p == w * t + f,
                f >= 0,
                w >= 1,
        ;
        assert(xk < 100 * t + 101) by (nonlinear_arith)
            requires
                xk * w < 100 * p + w,
                p == w * t + f,
                f < w,
                w >= 1,
        ;
    } else {
        assert(x * k == 0) by (nonlinear_arith)
            requires
                x == 0,
        ;
    }
}

/// Rounds `n / d` to a double.
pub fn round_to_double(n: u128, d: u128) -> (r: Double)
    requires
        0 < n < mantissa_end() * d,
        0 < d <= DENOMINATOR_MAX,
    ensures
        r@ == nearest_double(n as nat, d as nat),
{
    let target: u128 = MANTISSA_MIN * d;
    let mut scaled_n: u128 = n;
    let mut unit: u128 = 1;
    while scaled_n < target
        invariant
            0 < n,
            0 < d <= DENOMINATOR_MAX,
            target == min_mantissa() * d,
            0 < scaled_n < 2 * target,
            scaled_n == n * unit,
            1 <= unit <= scaled_n,
            binade_unit(n as nat, d as nat) == unit * binade_unit(scaled_n as nat, d as nat),
        decreases 2 * target - scaled_n,
    {
        let ghost rest = binade_unit((2 * scaled_n) as nat, d as nat);
        assert(unit * (2 * rest) == (unit * 2) * rest) by (nonlinear_arith);
        assert(n * (unit * 2) == (n * unit) * 2) by (nonlinear_arith);
        scaled_n = scaled_n * 2;
        unit = unit * 2;
    }
    assert(binade_unit(n as nat, d as nat) == unit) by {
        let last = binade_unit(scaled_n as nat, d as nat);
        assert(unit * last == unit) by (nonlinear_arith)
            requires
                last == 1,
        ;
    }
    let quotient: u128 = scaled_n / d;
    let remainder: u128 = scaled_n % d;
    let mantissa: u128 = if 2 * remainder < d || (2 * remainder == d && quotient % 2 == 0) {
        quotient
    } else {
        quotient + 1
    };
    Double { mantissa, unit }
}

/// Multiplies an integer by a double and cuts the fraction off the rounded product.
pub fn scale(x: u32, factor: Double) -> (r: u128)
    requires
        0 < factor.mantissa <= mantissa_end(),
        0 < factor.unit <= DENOMINATOR_MAX,
        x * factor.mantissa < mantissa_end() * factor.unit,
    ensures
        r == scaled(x as nat, factor@),
{
    if x == 0 {
        return 0;
    }
    assert(0 < x * factor.mantissa <= 0xffff_ffff * (mantissa_end())) by (nonlinear_arith)
        requires
            0 < x <= 0xffff_ffff,
            0 < factor.mantissa <= mantissa_end(),
    ;
    let n: u128 = x as u128 * factor.mantissa;
    let product = round_to_double(n, factor.unit);
    proof {
        lemma_nearest_double(n as nat, factor.unit as nat);
    }
    product.mantissa / product.unit
}

/// Divides a percentage by a hundred.
pub fn percent_double(k: u32) -> (r: Double)
    requires
        1 <= k <= 100,
    ensures
        r@ == percent(k as nat),
{
    round_to_double(k as u128, 100)
}

/// Adds one to a small percentage.
pub fn one_plus_percent_double(v: i32) -> (r: Double)
    requires
        -5 <= v <= 5,
    ensures
        r@ == one_plus_percent(v as int),
{
    if v == 0 {
        return round_to_double(1, 1);
    }
    let k: u32 = if v > 0 {
        v as u32
    } else {
        (-v) as u32
    };
    let r = percent_double(k);
    proof {
        lemma_percent(k as nat);
        lemma_nearest_double(k as nat, 100);
        assert(20 * r.mantissa <= r.unit + 20) by (nonlinear_arith)
            requires
                2 * (r.mantissa * 100) <= 2 * (k * r.unit) + 100,
                k <= 5,
        ;
    }
    if v > 0 {
        round_to_double(r.unit + r.mantissa, r.unit)
    } else {
        round_to_double(r.unit - r.mantissa, r.unit)
    }
}

} // verus!
