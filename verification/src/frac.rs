//! Exact rational scalars for the simulation.
//!
//! The demo's physics works on decimal constants (a speed of 1/100, a decay
//! factor of 9/10), so positions and velocities are kept as exact fractions
//! `num / den`.  Results of the arithmetic are exact; when a result can no
//! longer be represented (numerator outside `i64`, denominator outside
//! `u64`) the operation reports `None` instead of rounding.

use vstd::prelude::*;

verus! {

/// An exact fraction `num / den` with `den > 0`.
#[derive(Clone, Copy, Debug, PartialEq, Eq, Structural)]
pub struct Frac {
    pub num: i64,
    pub den: u64,
}

/// Well-formedness: the denominator is positive.
pub open spec fn frac_wf(f: Frac) -> bool {
    f.den > 0
}

/// Two fractions denote the same rational number (cross multiplication).
pub open spec fn same_value(a: Frac, b: Frac) -> bool {
    a.num * b.den == b.num * a.den
}

/// The exact result of scaling `v` by 9/10, or `None` when the
/// numerator or denominator of the scaled fraction is out of range.
pub open spec fn spec_decayed(v: Frac) -> Option<Frac> {
    if i64::MIN <= v.num * 9 <= i64::MAX && v.den * 10 <= u64::MAX {
        Some(Frac { num: (v.num * 9) as i64, den: (v.den * 10) as u64 })
    } else {
        None
    }
}

/// The exact sum `a + b` as an unreduced fraction, or `None` when its
/// numerator or denominator is out of range.
pub open spec fn spec_added(a: Frac, b: Frac) -> Option<Frac> {
    let n = a.num * b.den + b.num * a.den;
    let d = a.den * b.den;
    if i64::MIN <= n <= i64::MAX && d <= u64::MAX {
        Some(Frac { num: n as i64, den: d as u64 })
    } else {
        None
    }
}

/// Scale a fraction by the decay factor 9/10.
pub fn decayed(v: Frac) -> (r: Option<Frac>)
    requires
        frac_wf(v),
    ensures
        r == spec_decayed(v),
        r matches Some(f) ==> frac_wf(f),
{
    match (v.num.checked_mul(9), v.den.checked_mul(10)) {
        (Some(n), Some(d)) => Some(Frac { num: n, den: d }),
        _ => None,
    }
}

/// The product of an `i64` and a `u64` always fits in an `i128`.
proof fn lemma_i64_u64_product_fits(x: i64, y: u64)
    ensures
        i128::MIN <= x * y <= i128::MAX,
{
    assert(i128::MIN <= x * y <= i128::MAX) by (nonlinear_arith)
        requires
            i64::MIN <= x <= i64::MAX,
            0 <= y <= u64::MAX,
    {}
}

/// When the product of the two denominators fits in a `u64`, the sum of the
/// two cross products fits in an `i128`.
proof fn lemma_cross_sum_fits(a: Frac, b: Frac)
    requires
        frac_wf(a),
        frac_wf(b),
        a.den * b.den <= u64::MAX,
    ensures
        i128::MIN <= a.num * b.den + b.num * a.den <= i128::MAX,
        a.den * b.den >= 1,
{
    assert(a.den * b.den >= 1) by (nonlinear_arith)
        requires
            1 <= a.den,
            1 <= b.den,
    {}
    assert(i128::MIN <= a.num * b.den + b.num * a.den <= i128::MAX) by (nonlinear_arith)
        requires
            i64::MIN <= a.num <= i64::MAX,
            i64::MIN <= b.num <= i64::MAX,
            1 <= a.den,
            1 <= b.den,
            a.den * b.den <= u64::MAX,
    {}
}

/// Add two fractions exactly: `(a.num * b.den + b.num * a.den) / (a.den * b.den)`.
pub fn added(a: Frac, b: Frac) -> (r: Option<Frac>)
    requires
        frac_wf(a),
        frac_wf(b),
    ensures
        r == spec_added(a, b),
        r matches Some(f) ==> frac_wf(f),
{
    match a.den.checked_mul(b.den) {
        None => None,
        Some(d) => {
            proof {
                lemma_i64_u64_product_fits(a.num, b.den);
                lemma_i64_u64_product_fits(b.num, a.den);
                lemma_cross_sum_fits(a, b);
            }
            let p1: i128 = (a.num as i128) * (b.den as i128);
            let p2: i128 = (b.num as i128) * (a.den as i128);
            let n: i128 = p1 + p2;
            if n < i64::MIN as i128 || n > i64::MAX as i128 {
                None
            } else {
                Some(Frac { num: n as i64, den: d })
            }
        },
    }
}

/// Decide whether two fractions denote the same rational number.
pub fn eq_value(a: Frac, b: Frac) -> (r: bool)
    requires
        frac_wf(a),
        frac_wf(b),
    ensures
        r == same_value(a, b),
{
    proof {
        lemma_i64_u64_product_fits(a.num, b.den);
        lemma_i64_u64_product_fits(b.num, a.den);
    }
    let l: i128 = (a.num as i128) * (b.den as i128);
    let r_: i128 = (b.num as i128) * (a.den as i128);
    l == r_
}

/// Decay is exact scaling: whenever the decayed fraction is representable,
/// it denotes exactly 9/10 of the old value, for every starting fraction.
/// The statement mentions nothing but the velocity being decayed, so the
/// result is independent of any other simulation state.
pub proof fn lemma_decayed_is_nine_tenths(v: Frac)
    requires
        frac_wf(v),
    ensures
        spec_decayed(v) matches Some(f) ==> 10 * (f.num * v.den) == 9 * (v.num * f.den),
{
    if let Some(f) = spec_decayed(v) {
        assert(10 * (f.num * v.den) == 9 * (v.num * f.den)) by (nonlinear_arith)
            requires
                f.num == v.num * 9,
                f.den == v.den * 10,
        {}
    }
}

/// A nonzero velocity decays toward zero but never reaches it: the decayed
/// fraction is again nonzero and strictly smaller in magnitude.
pub proof fn lemma_decay_shrinks(v: Frac)
    requires
        frac_wf(v),
        v.num != 0,
    ensures
        spec_decayed(v) matches Some(f) ==> f.num != 0,
        spec_decayed(v) matches Some(f) ==> abs_of(f.num as int) * v.den < abs_of(v.num as int) * f.den,
{
    if let Some(f) = spec_decayed(v) {
        assert(f.num != 0 && abs_of(f.num as int) * v.den < abs_of(v.num as int) * f.den)
            by (nonlinear_arith)
            requires
                f.num == v.num * 9,
                f.den == v.den * 10,
                v.num != 0,
                v.den >= 1,
        {}
    }
}

/// The absolute value of an integer.
pub open spec fn abs_of(x: int) -> int {
    if x >= 0 {
        x
    } else {
        -x
    }
}

/// The fraction `f` rounded toward zero onto the denominator `max_den`,
/// when its own denominator is larger; `f` itself, unchanged, when it
/// already fits.  The rounded numerator is the floor of
/// `|f.num| * max_den / f.den`, carrying `f`'s sign.
pub open spec fn spec_coarsened(f: Frac, max_den: u64) -> Frac {
    if f.den <= max_den {
        f
    } else {
        let q = (abs_of(f.num as int) * max_den) / (f.den as int);
        Frac { num: (if f.num >= 0 { q } else { -q }) as i64, den: max_den }
    }
}

/// Round a fraction toward zero onto a denominator of at most `max_den`.
/// The result is exactly `f` whenever `f.den <= max_den`; otherwise it is
/// the closest fraction toward zero with denominator `max_den`: the
/// magnitude of the result is at most that of `f` and falls short of it
/// by less than `1 / max_den`, and the sign is kept.  Exact simulation
/// steps can thus be interleaved with a bounded-precision driver.
pub fn coarsened(f: Frac, max_den: u64) -> (r: Frac)
    requires
        frac_wf(f),
        max_den >= 1,
    ensures
        r == spec_coarsened(f, max_den),
        frac_wf(r),
        r.den <= max_den,
        abs_of(r.num as int) * f.den <= abs_of(f.num as int) * r.den,
        abs_of(f.num as int) * r.den < (abs_of(r.num as int) + 1) * f.den,
        f.num >= 0 ==> r.num >= 0,
        f.num <= 0 ==> r.num <= 0,
{
    if f.den <= max_den {
        proof {
            lemma_coarsened_exact_bounds(f);
        }
        f
    } else {
        let a: u128 = if f.num >= 0 {
            f.num as u128
        } else {
            (-(f.num as i128)) as u128
        };
        proof {
            assert(a == abs_of(f.num as int));
            assert(a * max_den <= u128::MAX) by (nonlinear_arith)
                requires
                    0 <= a <= 0x8000_0000_0000_0000u128,
                    0 <= max_den <= u64::MAX,
            {}
        }
        let prod: u128 = a * (max_den as u128);
        let q: u128 = prod / (f.den as u128);
        proof {
            lemma_coarsened_rounding_bounds(f, max_den);
        }
        let num: i64 = if f.num >= 0 {
            q as i64
        } else {
            (-(q as i128)) as i64
        };
        Frac { num, den: max_den }
    }
}

/// The rounding-error bound of `coarsened` holds trivially of an
/// unchanged fraction.
proof fn lemma_coarsened_exact_bounds(f: Frac)
    requires
        frac_wf(f),
    ensures
        abs_of(f.num as int) * f.den < (abs_of(f.num as int) + 1) * f.den,
{
    let a = abs_of(f.num as int);
    assert(a * f.den < (a + 1) * f.den) by (nonlinear_arith)
        requires
            a >= 0,
            f.den >= 1,
    {}
}

/// Floor-division facts behind `coarsened` when it really rounds: the
/// quotient `q = |f.num| * max_den / f.den` is at most `|f.num|`, and
/// `q / max_den` approaches `|f.num| / f.den` from below by less than
/// `1 / max_den`.
proof fn lemma_coarsened_rounding_bounds(f: Frac, max_den: u64)
    requires
        frac_wf(f),
        1 <= max_den,
        max_den < f.den,
    ensures
        ({
            let a = abs_of(f.num as int);
            let q = (a * max_den) / (f.den as int);
            0 <= q <= a && q * f.den <= a * max_den && a * max_den < (q + 1) * f.den
        }),
{
    let a = abs_of(f.num as int);
    let d = f.den as int;
    let s = max_den as int;
    let q = (a * s) / d;
    vstd::arithmetic::mul::lemma_mul_inequality(s, d, a);
    assert(s * a == a * s && d * a == a * d) by (nonlinear_arith);
    vstd::arithmetic::div_mod::lemma_div_is_ordered(a * s, a * d, d);
    vstd::arithmetic::div_mod::lemma_div_multiples_vanish(a, d);
    assert(d * a == a * d) by (nonlinear_arith);
    assert(q <= a);
    vstd::arithmetic::div_mod::lemma_div_pos_is_pos(a * s, d);
    assert(a * s >= 0) by (nonlinear_arith)
        requires
            a >= 0,
            s >= 1,
    {}
    vstd::arithmetic::div_mod::lemma_fundamental_div_mod(a * s, d);
    vstd::arithmetic::div_mod::lemma_mod_bound(a * s, d);
    assert(d * q <= a * s);
    assert(a * s < d * q + d);
    assert(d * q == q * d && d * q + d == (q + 1) * d) by (nonlinear_arith);
}

} // verus!
