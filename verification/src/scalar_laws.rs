//! What the tests on bit patterns say of the numbers that they stand for.
//!
//! A single-precision number is a whole multiple of two to the power of -149, a
//! double-precision one of two to the power of -1074; these multiples are the
//! values below.

use vstd::arithmetic::power2::{
    lemma2_to64, lemma2_to64_rest, lemma_pow2_adds, lemma_pow2_pos, lemma_pow2_unfold, pow2,
};
use vstd::prelude::*;

use crate::scalar::{doubled_up, doubling_ends, F32Bits, F64Bits};

verus! {

/// The size of a finite single-precision number, in multiples of its smallest
/// step: the fraction, with a leading bit unless the exponent is 0, doubled once
/// for every exponent beyond 1.
pub open spec fn size(magnitude: int) -> int {
    let exponent = magnitude / 0x80_0000;
    let fraction = magnitude % 0x80_0000;
    if exponent == 0 {
        fraction
    } else {
        (0x80_0000 + fraction) * pow2((exponent - 1) as nat)
    }
}

/// The bits without the sign.
pub open spec fn unsigned(v: F32Bits) -> int {
    v.bits as int % 0x8000_0000
}

/// A finite number.
pub open spec fn is_finite(v: F32Bits) -> bool {
    unsigned(v) < 0x7f80_0000
}

/// The value of a finite single-precision number.
pub open spec fn value(v: F32Bits) -> int {
    if v.bits < 0x8000_0000 {
        size(unsigned(v))
    } else {
        -size(unsigned(v))
    }
}

/// The value of 1.0.
pub open spec fn one() -> int {
    pow2(149) as int
}

/// The value of the machine epsilon, two to the power of -23.
pub open spec fn epsilon() -> int {
    pow2(126) as int
}

/// How far apart two values are.
pub open spec fn distance(a: int, b: int) -> int {
    if a < b {
        b - a
    } else {
        a - b
    }
}

proof fn sizes_step_up(m: int)
    requires
        0 <= m,
    ensures
        size(m) < size(m + 1),
        0 <= size(m),
{
    let e = m / 0x80_0000;
    let f = m % 0x80_0000;
    let e2 = (m + 1) / 0x80_0000;
    let f2 = (m + 1) % 0x80_0000;
    if e > 0 {
        let p = pow2((e - 1) as nat) as int;
        lemma_pow2_pos((e - 1) as nat);
        assert(0 <= (0x80_0000 + f) * p) by (nonlinear_arith)
            requires
                0 <= f,
                0 < p,
        ;
        if f + 1 < 0x80_0000 {
            assert(e2 == e && f2 == f + 1);
            assert((0x80_0000 + f + 1) * p == (0x80_0000 + f) * p + p) by (nonlinear_arith);
        } else {
            assert(e2 == e + 1 && f2 == 0);
            lemma_pow2_unfold(e as nat);
            assert(pow2(e as nat) == 2 * p);
            assert(0x80_0000 * (2 * p) == (0x80_0000 + f) * p + p) by (nonlinear_arith)
                requires
                    f == 0x7f_ffff,
            ;
        }
    } else {
        if f + 1 < 0x80_0000 {
            assert(e2 == 0 && f2 == f + 1);
        } else {
            assert(e2 == 1 && f2 == 0);
            lemma2_to64();
        }
    }
}

proof fn sizes_rise(a: int, b: int)
    requires
        0 <= a < b,
    ensures
        size(a) < size(b),
    decreases b - a,
{
    sizes_step_up(b - 1);
    if a < b - 1 {
        sizes_rise(a, b - 1);
    }
}

/// Sizes rise with the bits that they are read from.
pub proof fn sizes_ordered(a: int, b: int)
    requires
        0 <= a,
        0 <= b,
    ensures
        (a < b) == (size(a) < size(b)),
        (a == b) == (size(a) == size(b)),
        0 <= size(a),
        0 <= size(b),
        (size(a) == 0) == (a == 0),
{
    sizes_step_up(a);
    sizes_step_up(b);
    if a < b {
        sizes_rise(a, b);
    } else if b < a {
        sizes_rise(b, a);
    }
    assert(size(0) == 0);
    if a > 0 {
        sizes_rise(0, a);
    }
}

/// Comparing two finite numbers compares their values.
pub proof fn comparisons_compare_values(a: F32Bits, b: F32Bits)
    requires
        is_finite(a),
        is_finite(b),
    ensures
        a.less(b) == (value(a) < value(b)),
        a.at_most(b) == (value(a) <= value(b)),
{
    sizes_ordered(unsigned(a), unsigned(b));
    sizes_ordered(unsigned(b), unsigned(a));
}

/// What is not a number compares with nothing, and the infinities lie beyond all
/// finite numbers.
pub proof fn comparisons_end_at_infinity(a: F32Bits, b: F32Bits)
    ensures
        unsigned(a) > 0x7f80_0000 || unsigned(b) > 0x7f80_0000 ==> !a.less(b) && !a.at_most(b),
        is_finite(a) && b.bits == 0x7f80_0000 ==> a.less(b) && !b.at_most(a),
        is_finite(a) && b.bits == 0xff80_0000 ==> b.less(a) && !a.at_most(b),
{
}

/// The sizes of the numbers around 1.0, and of the machine epsilon.
pub proof fn sizes_near_one()
    ensures
        size(0x3f80_0000) == one(),
        size(0x3f80_0001) == one() + epsilon(),
        size(0x3f80_0002) == one() + 2 * epsilon(),
        2 * size(0x3f7f_ffff) == 2 * one() - epsilon(),
        size(0x3f7f_fffe) == one() - epsilon(),
        2 * size(0x3f7f_fffd) == 2 * one() - 3 * epsilon(),
        size(0x3400_0000) == epsilon(),
        0 < epsilon() < one(),
        4 * epsilon() < one(),
{
    let p = pow2(125) as int;
    lemma_pow2_pos(125);
    lemma_pow2_unfold(126);
    assert(pow2(126) == 2 * p);
    lemma_pow2_adds(23, 126);
    lemma2_to64();
    assert(pow2(23) == 0x80_0000);
    assert(one() == 0x80_0000 * (2 * p));
    assert(0x3f80_0000int / 0x80_0000 == 127 && 0x3f80_0000int % 0x80_0000 == 0);
    assert(0x3f80_0001int / 0x80_0000 == 127 && 0x3f80_0001int % 0x80_0000 == 1);
    assert(0x3f80_0002int / 0x80_0000 == 127 && 0x3f80_0002int % 0x80_0000 == 2);
    assert(0x3f7f_ffffint / 0x80_0000 == 126 && 0x3f7f_ffffint % 0x80_0000 == 0x7f_ffff);
    assert(0x3f7f_fffeint / 0x80_0000 == 126 && 0x3f7f_fffeint % 0x80_0000 == 0x7f_fffe);
    assert(0x3f7f_fffdint / 0x80_0000 == 126 && 0x3f7f_fffdint % 0x80_0000 == 0x7f_fffd);
    assert(0x3400_0000int / 0x80_0000 == 104 && 0x3400_0000int % 0x80_0000 == 0);
    lemma_pow2_adds(23, 103);
}

/// A gain counts as one exactly if it is nearer to 1.0 than the machine epsilon,
/// and rescales exactly if it is a number that does not.
pub proof fn unity_is_near_one(v: F32Bits)
    ensures
        is_finite(v) ==> v.unity() == (distance(value(v), one()) < epsilon()),
        is_finite(v) ==> v.rescales() == (distance(value(v), one()) >= epsilon()),
        unsigned(v) == 0x7f80_0000 ==> v.rescales() && !v.unity(),
        unsigned(v) > 0x7f80_0000 ==> !v.rescales() && !v.unity(),
{
    sizes_near_one();
    let m = unsigned(v);
    sizes_ordered(m, 0x3f7f_fffe);
    sizes_ordered(m, 0x3f80_0001);
    sizes_ordered(m, 0x3f80_0000);
    sizes_ordered(m, 0x3f7f_ffff);
}

/// A setting matters exactly if it differs by more than the machine epsilon from
/// 1.0, or from 0.0; a pan is negligible exactly if it is nearer to 0.0 than
/// that.
pub proof fn settings_matter_beyond_epsilon(v: F32Bits)
    ensures
        is_finite(v) ==> v.off_unity() == (distance(value(v), one()) > epsilon()),
        is_finite(v) ==> v.off_zero() == (distance(value(v), 0) > epsilon()),
        is_finite(v) ==> v.negligible() == (distance(value(v), 0) < epsilon()),
        unsigned(v) == 0x7f80_0000 ==> v.off_unity() && v.off_zero() && !v.negligible(),
        unsigned(v) > 0x7f80_0000 ==> !v.off_unity() && !v.off_zero() && !v.negligible(),
{
    sizes_near_one();
    let m = unsigned(v);
    sizes_ordered(m, 0x3f7f_fffe);
    sizes_ordered(m, 0x3f7f_fffd);
    sizes_ordered(m, 0x3f80_0001);
    sizes_ordered(m, 0x3f80_0002);
    sizes_ordered(m, 0x3400_0000);
}

/// Clamping leaves a number from -1.0 to 1.0 and brings any other to the nearer
/// end, infinities too.
pub proof fn clamping_brings_to_the_nearer_end(v: F32Bits)
    ensures
        is_finite(v) && distance(value(v), 0) <= one() ==> v.clamped() == v,
        is_finite(v) && value(v) > one() || v.bits == 0x7f80_0000 ==> v.clamped().bits
            == 0x3f80_0000,
        is_finite(v) && value(v) < -one() || v.bits == 0xff80_0000 ==> v.clamped().bits
            == 0xbf80_0000,
        unsigned(v) > 0x7f80_0000 ==> v.clamped() == v,
{
    sizes_near_one();
    sizes_ordered(unsigned(v), 0x3f80_0000);
}

/// Limiting leaves a number between the bounds and brings any other to the bound
/// that it is beyond.
pub proof fn limiting_brings_to_the_bound(v: F32Bits, min: F32Bits, max: F32Bits)
    requires
        is_finite(min),
        is_finite(max),
        value(min) <= value(max),
    ensures
        is_finite(v) && value(min) <= value(v) <= value(max) ==> v.limited(min, max) == v,
        is_finite(v) && value(v) < value(min) ==> v.limited(min, max) == min,
        is_finite(v) && value(v) > value(max) ==> v.limited(min, max) == max,
        unsigned(v) > 0x7f80_0000 ==> v.limited(min, max) == v,
{
    if is_finite(v) {
        comparisons_compare_values(v, min);
        comparisons_compare_values(max, v);
    }
}

// ---------------------------------------------------------------------------
// Double precision
// ---------------------------------------------------------------------------

/// The size of a finite double-precision number, in multiples of its smallest
/// step.
pub open spec fn wide_size(magnitude: int) -> int {
    let exponent = magnitude / 0x10_0000_0000_0000;
    let fraction = magnitude % 0x10_0000_0000_0000;
    if exponent == 0 {
        fraction
    } else {
        (0x10_0000_0000_0000 + fraction) * pow2((exponent - 1) as nat)
    }
}

/// The bits of a double-precision number without the sign.
pub open spec fn wide_unsigned(v: F64Bits) -> int {
    v.bits as int % 0x8000_0000_0000_0000
}

/// The value of a finite double-precision number.
pub open spec fn wide_value(v: F64Bits) -> int {
    if v.bits < 0x8000_0000_0000_0000 {
        wide_size(wide_unsigned(v))
    } else {
        -wide_size(wide_unsigned(v))
    }
}

proof fn doubling_is_a_power(n: nat)
    requires
        0 < n < 0x20_0000_0000_0000,
    ensures
        doubled_up(n).1 == n * pow2(doubled_up(n).0),
    decreases 0x20_0000_0000_0000 - n,
{
    lemma2_to64();
    if n < 0x10_0000_0000_0000 {
        doubling_is_a_power(2 * n);
        let t = doubled_up(2 * n).0;
        lemma_pow2_unfold(t + 1);
        let p = pow2(t) as int;
        assert((2 * n) * p == n * (2 * p)) by (nonlinear_arith);
        assert(doubled_up(n) == (t + 1, doubled_up(2 * n).1));
        let q = pow2(t + 1) as int;
        assert(n * q == n * (2 * p)) by (nonlinear_arith)
            requires
                q == 2 * p,
        ;
    } else {
        assert(doubled_up(n) == (0nat, n));
        let q = pow2(0) as int;
        assert(n * q == n) by (nonlinear_arith)
            requires
                q == 1,
        ;
    }
}

proof fn widened_size(v: F32Bits)
    requires
        is_finite(v),
    ensures
        0 <= v.wide_magnitude() < 0x7ff0_0000_0000_0000,
        wide_size(v.wide_magnitude()) == size(unsigned(v)) * pow2(925),
{
    let m = unsigned(v);
    assert(v.magnitude() == m);
    let e = m / 0x80_0000;
    let f = m % 0x80_0000;
    let w = v.wide_magnitude();
    lemma2_to64();
    lemma2_to64_rest();
    if m == 0 {
        assert(0 * pow2(925) == 0);
    } else if e == 0 {
        let (times, top) = doubled_up(f as nat);
        doubling_ends(f as nat, 0);
        doubling_is_a_power(f as nat);
        let big: int = 0x10_0000_0000_0000;
        let x = 926 - times;
        let y = top - big;
        assert(w == x * big + y);
        assert(w / big == x && w % big == y) by (nonlinear_arith)
            requires
                w == x * big + y,
                0 <= y < big,
                big == 0x10_0000_0000_0000,
        ;
        assert(wide_size(w) == top * pow2((925 - times) as nat));
        lemma_pow2_adds(times, (925 - times) as nat);
        let (a, b) = (pow2(times) as int, pow2((925 - times) as nat) as int);
        assert((f * a) * b == f * (a * b)) by (nonlinear_arith);
        assert(x * big + y < 0x7ff0_0000_0000_0000) by (nonlinear_arith)
            requires
                x <= 926,
                y < big,
                big == 0x10_0000_0000_0000,
        ;
        assert(0 <= x * big + y) by (nonlinear_arith)
            requires
                x >= 0,
                y >= 0,
                big == 0x10_0000_0000_0000,
        ;
    } else {
        assert(e < 255);
        let big: int = 0x10_0000_0000_0000;
        let x = e + 896;
        let y = f * 0x2000_0000;
        assert(w == x * big + y);
        assert(w / big == x && w % big == y) by (nonlinear_arith)
            requires
                w == x * big + y,
                0 <= y < big,
                big == 0x10_0000_0000_0000,
        ;
        lemma_pow2_adds((e - 1) as nat, 925);
        lemma_pow2_adds(29, (e + 895) as nat);
        let (a, b) = (pow2((e - 1) as nat) as int, pow2(925) as int);
        let c = pow2((e + 895) as nat) as int;
        assert(a * b == pow2((e + 924) as nat));
        assert(0x2000_0000 * c == pow2((e + 924) as nat));
        assert((big + y) * c == (0x80_0000 + f) * (0x2000_0000 * c)) by (nonlinear_arith)
            requires
                y == f * 0x2000_0000,
                big == 0x80_0000 * 0x2000_0000,
        ;
        assert(((0x80_0000 + f) * a) * b == (0x80_0000 + f) * (a * b)) by (nonlinear_arith);
    }
}

/// A finite number widened to double precision is the same number: its value is
/// as many more of the smaller steps. Infinities stay infinite, and what is not a
/// number stays so.
pub proof fn widening_keeps_the_number(v: F32Bits)
    ensures
        is_finite(v) ==> wide_unsigned(v.widened()) < 0x7ff0_0000_0000_0000 && wide_value(
            v.widened(),
        ) == value(v) * pow2(925),
        v.bits == 0x7f80_0000 ==> v.widened().bits == 0x7ff0_0000_0000_0000,
        v.bits == 0xff80_0000 ==> v.widened().bits == 0xfff0_0000_0000_0000,
        unsigned(v) > 0x7f80_0000 ==> wide_unsigned(v.widened()) > 0x7ff0_0000_0000_0000,
{
    if is_finite(v) {
        widened_size(v);
        let s = size(unsigned(v));
        let p = pow2(925) as int;
        assert((-s) * p == -(s * p)) by (nonlinear_arith);
    }
}

proof fn wide_sizes_step_up(m: int)
    requires
        0 <= m,
    ensures
        wide_size(m) < wide_size(m + 1),
        0 <= wide_size(m),
{
    let big: int = 0x10_0000_0000_0000;
    let e = m / big;
    let f = m % big;
    let e2 = (m + 1) / big;
    let f2 = (m + 1) % big;
    if e > 0 {
        let p = pow2((e - 1) as nat) as int;
        lemma_pow2_pos((e - 1) as nat);
        assert(0 <= (big + f) * p) by (nonlinear_arith)
            requires
                0 <= f,
                0 < p,
                big > 0,
        ;
        if f + 1 < big {
            assert(e2 == e && f2 == f + 1);
            assert((big + f + 1) * p == (big + f) * p + p) by (nonlinear_arith);
        } else {
            assert(e2 == e + 1 && f2 == 0);
            lemma_pow2_unfold(e as nat);
            assert(big * (2 * p) == (big + f) * p + p) by (nonlinear_arith)
                requires
                    f + 1 == big,
            ;
        }
    } else {
        if f + 1 < big {
            assert(e2 == 0 && f2 == f + 1);
        } else {
            assert(e2 == 1 && f2 == 0);
            lemma2_to64();
        }
    }
}

proof fn wide_sizes_rise(a: int, b: int)
    requires
        0 <= a < b,
    ensures
        0 <= wide_size(a) < wide_size(b),
    decreases b - a,
{
    wide_sizes_step_up(a);
    wide_sizes_step_up(b - 1);
    if a < b - 1 {
        wide_sizes_rise(a, b - 1);
    }
}

proof fn sizes_around_one()
    ensures
        ({
            let q: int = 0x3ff0_0000_0000_0000;
            let p = pow2(1021) as int;
            &&& p > 0
            &&& pow2(1022) == 2 * p
            &&& pow2(1074) == 0x20_0000_0000_0000 * p
            &&& wide_size(q + 1) == 0x20_0000_0000_0002 * p
            &&& wide_size(q + 2) == 0x20_0000_0000_0004 * p
            &&& wide_size(q - 2) == 0x1f_ffff_ffff_fffe * p
            &&& wide_size(q - 3) == 0x1f_ffff_ffff_fffd * p
        }),
{
    let p = pow2(1021) as int;
    let w = pow2(1022) as int;
    lemma_pow2_pos(1021);
    lemma_pow2_unfold(1022);
    lemma_pow2_adds(52, 1022);
    lemma2_to64_rest();
    lemma2_to64();
    assert(w == 2 * p);
    assert(pow2(52) == 0x10_0000_0000_0000);
    assert(0x10_0000_0000_0000 * w == 0x20_0000_0000_0000 * p);
    assert(0x3ff0_0000_0000_0001int / 0x10_0000_0000_0000 == 1023);
    assert(0x3ff0_0000_0000_0001int % 0x10_0000_0000_0000 == 1);
    assert(0x3ff0_0000_0000_0002int / 0x10_0000_0000_0000 == 1023);
    assert(0x3ff0_0000_0000_0002int % 0x10_0000_0000_0000 == 2);
    assert(0x3fef_ffff_ffff_fffeint / 0x10_0000_0000_0000 == 1022);
    assert(0x3fef_ffff_ffff_fffeint % 0x10_0000_0000_0000 == 0xf_ffff_ffff_fffe);
    assert(0x3fef_ffff_ffff_fffdint / 0x10_0000_0000_0000 == 1022);
    assert(0x3fef_ffff_ffff_fffdint % 0x10_0000_0000_0000 == 0xf_ffff_ffff_fffd);
    assert(wide_size(0x3ff0_0000_0000_0001) == 0x10_0000_0000_0001 * w);
    assert(wide_size(0x3ff0_0000_0000_0002) == 0x10_0000_0000_0002 * w);
    assert(wide_size(0x3fef_ffff_ffff_fffe) == 0x1f_ffff_ffff_fffe * p);
    assert(wide_size(0x3fef_ffff_ffff_fffd) == 0x1f_ffff_ffff_fffd * p);
}

/// A double-precision gain matters exactly if it differs from 1.0 by more than
/// the machine epsilon, two to the power of -52.
pub proof fn wide_gains_matter_beyond_epsilon(v: F64Bits)
    ensures
        wide_unsigned(v) < 0x7ff0_0000_0000_0000 ==> v.off_unity() == (distance(
            wide_value(v),
            pow2(1074) as int,
        ) > pow2(1022)),
        wide_unsigned(v) == 0x7ff0_0000_0000_0000 ==> v.off_unity(),
        wide_unsigned(v) > 0x7ff0_0000_0000_0000 ==> !v.off_unity(),
{
    let m = wide_unsigned(v);
    let q: int = 0x3ff0_0000_0000_0000;
    sizes_around_one();
    wide_sizes_step_up(m);
    if m < q - 3 {
        wide_sizes_rise(m, q - 3);
    }
    if q - 2 < m {
        wide_sizes_rise(q - 2, m);
    }
    if m < q + 1 {
        wide_sizes_rise(m, q + 1);
    }
    if m > q + 2 {
        wide_sizes_rise(q + 2, m);
    }
}

} // verus!
