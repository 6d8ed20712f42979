//! Sines and cosines of whole degrees in fixed point.

use vstd::prelude::*;
use vstd::arithmetic::div_mod::lemma_mod_add_multiples_vanish;
use crate::sine_table::{
    lemma_quarter_circle, lemma_quarter_sine_bounds, lemma_quarter_step, near_unit_circle,
    quarter_entry, quarter_sine, turned_one_degree, TRIG_ONE,
};
use crate::vector::{
    lemma_floor_square, lemma_scale_toward_zero_bounds, lemma_square_of_magnitude, magnitude,
    rescale, scale_toward_zero, Vec2,
};

verus! {

/// The sine of `deg` degrees, times `TRIG_ONE`.
pub open spec fn sin_q16(deg: int) -> int {
    let r = deg % 360;
    if r <= 90 {
        quarter_sine(r)
    } else if r <= 180 {
        quarter_sine(180 - r)
    } else if r <= 270 {
        -quarter_sine(r - 180)
    } else {
        -quarter_sine(360 - r)
    }
}

/// The cosine of `deg` degrees, times `TRIG_ONE`.
pub open spec fn cos_q16(deg: int) -> int {
    sin_q16(deg + 90)
}

/// Sines and cosines stay between `-TRIG_ONE` and `TRIG_ONE`.
pub proof fn lemma_sine_cosine_bounds(deg: int)
    ensures
        -TRIG_ONE <= sin_q16(deg) <= TRIG_ONE,
        -TRIG_ONE <= cos_q16(deg) <= TRIG_ONE,
{
    assert forall|d: int| 0 <= d <= 90 implies 0 <= #[trigger] quarter_sine(d) <= TRIG_ONE by {
        lemma_quarter_sine_bounds(d);
    }
}

/// The cosine and the sine of an angle lie on the unit circle, up to `CIRCLE_SLACK`.
pub proof fn lemma_unit_circle(deg: int)
    ensures
        near_unit_circle(cos_q16(deg), sin_q16(deg)),
{
    let r = deg % 360;
    assert((deg + 90) % 360 == if r < 270 {
        r + 90
    } else {
        r - 270
    });
    let d = if r <= 90 {
        r
    } else if r <= 180 {
        180 - r
    } else if r <= 270 {
        r - 180
    } else {
        360 - r
    };
    lemma_quarter_circle(d);
    lemma_quarter_circle(90 - d);
    let a = quarter_sine(d);
    let b = quarter_sine(90 - d);
    assert((-a) * (-a) == a * a) by (nonlinear_arith);
    assert((-b) * (-b) == b * b) by (nonlinear_arith);
}

/// The cosine and sine of `deg + 1` degrees are those of `deg` degrees
/// turned by one degree: the addition theorems hold of the table all the way
/// round, up to the rounding of its entries.
pub proof fn lemma_one_degree_step(deg: int)
    ensures
        turned_one_degree(cos_q16(deg), sin_q16(deg), cos_q16(deg + 1), sin_q16(deg + 1)),
{
    let r = deg % 360;
    assert((deg + 1) % 360 == if r < 359 {
        r + 1
    } else {
        0
    });
    assert((deg + 90) % 360 == if r < 270 {
        r + 90
    } else {
        r - 270
    });
    assert((deg + 91) % 360 == if r < 269 {
        r + 91
    } else {
        r - 269
    });
    // the place of the angle in its quadrant
    let k = r % 90;
    lemma_quarter_step(k);
    assert forall|d: int| 0 <= d <= 90 implies 0 <= #[trigger] quarter_sine(d) <= TRIG_ONE by {
        lemma_quarter_sine_bounds(d);
    }
}

/// Turning by a full circle changes neither sine nor cosine.
pub proof fn lemma_full_turn(deg: int)
    ensures
        sin_q16(deg + 360) == sin_q16(deg),
        cos_q16(deg + 360) == cos_q16(deg),
{
    lemma_mod_add_multiples_vanish(deg, 360);
    lemma_mod_add_multiples_vanish(deg + 90, 360);
    assert(deg + 360 == 360 + deg);
    assert(deg + 360 + 90 == 360 + (deg + 90));
}

/// `deg` brought into the range from 0 to 359 by whole turns.
pub fn reduce_degrees(deg: i64) -> (r: i32)
    ensures
        r == deg % 360,
        0 <= r < 360,
{
    let m: i64 = deg % 360;
    if m < 0 {
        (m + 360) as i32
    } else {
        m as i32
    }
}

/// The sine of an angle between 0 and 359 degrees.
fn sine_reduced(r: i32) -> (s: i32)
    requires
        0 <= r < 360,
    ensures
        s == sin_q16(r as int),
{
    let d: i32 = if r <= 90 {
        r
    } else if r <= 180 {
        180 - r
    } else if r <= 270 {
        r - 180
    } else {
        360 - r
    };
    let entry: i32 = quarter_entry(d as usize);
    if r <= 180 {
        entry
    } else {
        -entry
    }
}

/// The sine of `deg` degrees in fixed point.
pub fn sine(deg: i32) -> (s: i32)
    ensures
        s == sin_q16(deg as int),
{
    sine_reduced(reduce_degrees(deg as i64))
}

/// The cosine of `deg` degrees in fixed point.
pub fn cosine(deg: i32) -> (c: i32)
    ensures
        c == cos_q16(deg as int),
{
    let r: i32 = reduce_degrees(deg as i64);
    let shifted: i32 = if r < 270 {
        r + 90
    } else {
        r - 270
    };
    sine_reduced(shifted)
}

/// The displacement of the given length in the direction of `deg` degrees,
/// each coordinate rounded toward zero.
pub open spec fn polar(length: int, deg: int) -> Vec2 {
    Vec2 {
        x: scale_toward_zero(cos_q16(deg), length, TRIG_ONE as int) as i64,
        y: scale_toward_zero(sin_q16(deg), length, TRIG_ONE as int) as i64,
    }
}

/// Neither coordinate of a polar displacement is longer than the displacement.
pub proof fn lemma_polar_bounds(length: int, deg: int)
    requires
        0 <= length <= u32::MAX,
    ensures
        magnitude(polar(length, deg).x as int) <= length,
        magnitude(polar(length, deg).y as int) <= length,
        polar(length, deg).x == scale_toward_zero(cos_q16(deg), length, TRIG_ONE as int),
        polar(length, deg).y == scale_toward_zero(sin_q16(deg), length, TRIG_ONE as int),
{
    lemma_sine_cosine_bounds(deg);
    lemma_scale_toward_zero_bounds(cos_q16(deg), length, TRIG_ONE as int);
    lemma_scale_toward_zero_bounds(sin_q16(deg), length, TRIG_ONE as int);
}

/// How far the squared length of a polar displacement may lie from the
/// square of the length asked for: sines and cosines are rounded, and so
/// are the two coordinates.
pub open spec fn polar_slack(length: int) -> int {
    length * length / 32768 + 4 * length
}

/// A polar displacement has the length asked for, up to `polar_slack`.
pub proof fn lemma_polar_length(length: int, deg: int)
    requires
        0 <= length <= u32::MAX,
    ensures
        length * length - polar_slack(length) <= polar(length, deg).norm_sqr() <= length * length
            + polar_slack(length),
{
    let c = cos_q16(deg);
    let s = sin_q16(deg);
    let a = magnitude(c);
    let b = magnitude(s);
    let p = polar(length, deg);
    lemma_sine_cosine_bounds(deg);
    lemma_unit_circle(deg);
    lemma_polar_bounds(length, deg);
    lemma_scale_toward_zero_bounds(c, length, 65536);
    lemma_scale_toward_zero_bounds(s, length, 65536);
    lemma_square_of_magnitude(c);
    lemma_square_of_magnitude(s);
    lemma_square_of_magnitude(p.x as int);
    lemma_square_of_magnitude(p.y as int);
    let big_a = a * length;
    let big_b = b * length;
    assert(0 <= big_a <= 65536 * length && 0 <= big_b <= 65536 * length) by (nonlinear_arith)
        requires
            0 <= a <= 65536,
            0 <= b <= 65536,
            length >= 0,
            big_a == a * length,
            big_b == b * length,
    ;
    lemma_floor_square(big_a, 65536);
    lemma_floor_square(big_b, 65536);
    let qa = big_a / 65536;
    let qb = big_b / 65536;
    let ta = 65536 * qa;
    let tb = 65536 * qb;
    let n = qa * qa + qb * qb;
    assert(p.norm_sqr() == n);
    assert(ta * ta + tb * tb == 4294967296 * n) by (nonlinear_arith)
        requires
            ta == 65536 * qa,
            tb == 65536 * qb,
            n == qa * qa + qb * qb,
    ;
    let x = length * length;
    let circle = a * a + b * b;
    assert(big_a * big_a + big_b * big_b == x * circle) by (nonlinear_arith)
        requires
            big_a == a * length,
            big_b == b * length,
            x == length * length,
            circle == a * a + b * b,
    ;
    assert(4294836224 * x <= x * circle <= 4295098368 * x) by (nonlinear_arith)
        requires
            x >= 0,
            4294836224 <= circle <= 4295098368,
    ;
    assert(x >= 0) by (nonlinear_arith)
        requires
            x == length * length,
    ;
    let lost = 2 * big_a * (65536 - 1) + 2 * big_b * (65536 - 1);
    assert(lost <= 17179869184 * length) by (nonlinear_arith)
        requires
            0 <= big_a <= 65536 * length,
            0 <= big_b <= 65536 * length,
            lost == 2 * big_a * (65536 - 1) + 2 * big_b * (65536 - 1),
    ;
    // the squared length, times the squared scale, between the two bounds
    assert(x * circle - lost <= 4294967296 * n <= x * circle);
    assert(32768 * (n - x) <= x);
    assert(32768 * (x - n) <= x + 131072 * length);
    assert(polar_slack(length) == x / 32768 + 4 * length);
}

/// The displacement of the given length in the direction of `deg` degrees.
pub fn polar_offset(length: u32, deg: i32) -> (v: Vec2)
    ensures
        v == polar(length as int, deg as int),
{
    let c: i32 = cosine(deg);
    let s: i32 = sine(deg);
    proof {
        lemma_sine_cosine_bounds(deg as int);
        lemma_scale_toward_zero_bounds(c as int, length as int, 65536);
        lemma_scale_toward_zero_bounds(s as int, length as int, 65536);
    }
    Vec2 { x: rescale(c as i64, length, 65536), y: rescale(s as i64, length, 65536) }
}

} // verus!
