//! Two-dimensional integer vectors and the saturating arithmetic under them.

use vstd::prelude::*;

verus! {

/// Sub-units in one world unit: a length `n * UNIT` is `n` world units.
pub const UNIT: i64 = 65536;

/// `v` brought into the range of `i64`.
pub open spec fn clamp_i64(v: int) -> int {
    if v > i64::MAX {
        i64::MAX as int
    } else if v < i64::MIN {
        i64::MIN as int
    } else {
        v
    }
}

/// `a + b`, held at the nearest end of the range of `i64` where the sum leaves it.
pub fn saturating_sum(a: i64, b: i64) -> (r: i64)
    ensures
        r == clamp_i64(a + b),
{
    let wide: i128 = a as i128 + b as i128;
    if wide > i64::MAX as i128 {
        i64::MAX
    } else if wide < i64::MIN as i128 {
        i64::MIN
    } else {
        wide as i64
    }
}

/// The absolute value of `v`.
pub open spec fn magnitude(v: int) -> int {
    if v < 0 {
        -v
    } else {
        v
    }
}

/// The absolute value of `v`, which always fits in `u64`.
pub fn unsigned_magnitude(v: i64) -> (r: u64)
    ensures
        r == magnitude(v as int),
{
    if v >= 0 {
        v as u64
    } else {
        let wide: i128 = -(v as i128);
        wide as u64
    }
}

/// `x * num / den`, rounded toward zero.
pub open spec fn scale_toward_zero(x: int, num: int, den: int) -> int {
    if x >= 0 {
        (magnitude(x) * num) / den
    } else {
        -((magnitude(x) * num) / den)
    }
}

/// What `scale_toward_zero` gives is no longer than `num` when `x` is no
/// longer than `den`, and has the sign of `x`.
pub proof fn lemma_scale_toward_zero_bounds(x: int, num: int, den: int)
    requires
        den > 0,
        num >= 0,
        magnitude(x) <= den,
    ensures
        magnitude(scale_toward_zero(x, num, den)) <= num,
        x >= 0 ==> scale_toward_zero(x, num, den) >= 0,
        x <= 0 ==> scale_toward_zero(x, num, den) <= 0,
        magnitude(scale_toward_zero(x, num, den)) == (magnitude(x) * num) / den,
{
    let m = magnitude(x);
    assert(0 <= (m * num) / den <= num) by (nonlinear_arith)
        requires
            0 <= m <= den,
            den > 0,
            num >= 0,
    ;
    if x == 0 {
        assert((x * num) / den == 0) by (nonlinear_arith)
            requires
                x == 0,
                den > 0,
        ;
    }
}

/// Scales `x` by the ratio `num / den`, rounding toward zero. The divisor
/// must not be zero and the result must fit in `i64`, as it does whenever
/// `x` is no longer than `den`.
pub fn rescale(x: i64, num: u32, den: u64) -> (r: i64)
    requires
        den > 0,
        (magnitude(x as int) * num) / (den as int) <= i64::MAX,
    ensures
        r == scale_toward_zero(x as int, num as int, den as int),
{
    let m: u64 = unsigned_magnitude(x);
    proof {
        assert(m * num <= 0xffff_ffff_ffff_ffff * 0xffff_ffff) by (nonlinear_arith)
            requires
                0 <= m <= 0xffff_ffff_ffff_ffff,
                0 <= num <= 0xffff_ffff,
        ;
        assert((m * num) / (den as int) >= 0) by (nonlinear_arith)
            requires
                m * num >= 0,
                den > 0,
        ;
    }
    let q: u128 = (m as u128 * num as u128) / (den as u128);
    if x >= 0 {
        q as i64
    } else {
        -(q as i64)
    }
}

/// How far the coordinate `a` lies beyond the coordinate `b`.
pub open spec fn span(a: int, b: int) -> int {
    a - b
}

/// The squared distance between two points.
pub open spec fn distance_sqr(a: Vec2, b: Vec2) -> int {
    span(a.x as int, b.x as int) * span(a.x as int, b.x as int) + span(a.y as int, b.y as int)
        * span(a.y as int, b.y as int)
}

/// A point or a displacement in the plane, in sub-units.
#[derive(Clone, Copy, Debug, PartialEq, Eq, Structural)]
pub struct Vec2 {
    pub x: i64,
    pub y: i64,
}

impl Vec2 {
    /// The vector with the given coordinates.
    pub fn new(x: i64, y: i64) -> (v: Vec2)
        ensures
            v == (Vec2 { x, y }),
    {
        Vec2 { x, y }
    }

    /// The origin.
    pub fn zero() -> (v: Vec2)
        ensures
            v == (Vec2 { x: 0, y: 0 }),
    {
        Vec2 { x: 0, y: 0 }
    }

    /// The squared Euclidean length: the squared distance from the origin.
    pub open spec fn norm_sqr(self) -> int {
        distance_sqr(self, Vec2 { x: 0, y: 0 })
    }

    /// The componentwise sum, each coordinate held inside the range of `i64`.
    pub open spec fn plus(self, d: Vec2) -> Vec2 {
        Vec2 { x: clamp_i64(self.x + d.x) as i64, y: clamp_i64(self.y + d.y) as i64 }
    }

    /// Whether adding `d` keeps both coordinates inside the range of `i64`.
    pub open spec fn can_add(self, d: Vec2) -> bool {
        &&& i64::MIN <= self.x + d.x <= i64::MAX
        &&& i64::MIN <= self.y + d.y <= i64::MAX
    }

    /// The squared Euclidean length, computed without overflow.
    pub fn length_sqr(&self) -> (r: u128)
        ensures
            r == self.norm_sqr(),
    {
        let ax: u64 = unsigned_magnitude(self.x);
        let ay: u64 = unsigned_magnitude(self.y);
        proof {
            lemma_square_of_magnitude(self.x as int);
            lemma_square_of_magnitude(self.y as int);
            lemma_square_bound(ax as int, 0x8000_0000_0000_0000);
            lemma_square_bound(ay as int, 0x8000_0000_0000_0000);
        }
        let sx: u128 = ax as u128 * ax as u128;
        let sy: u128 = ay as u128 * ay as u128;
        sx + sy
    }

    /// Adds `d`, saturating each coordinate.
    pub fn saturating_add(&self, d: Vec2) -> (r: Vec2)
        ensures
            r == self.plus(d),
    {
        Vec2 { x: saturating_sum(self.x, d.x), y: saturating_sum(self.y, d.y) }
    }
}

/// A number and its absolute value have the same square.
pub(crate) proof fn lemma_square_of_magnitude(v: int)
    ensures
        magnitude(v) * magnitude(v) == v * v,
{
    assert((-v) * (-v) == v * v) by (nonlinear_arith);
}

/// Squaring keeps the order of non-negative numbers.
pub(crate) proof fn lemma_square_bound(a: int, b: int)
    requires
        0 <= a <= b,
    ensures
        a * a <= b * b,
{
    assert(a * a <= b * b) by (nonlinear_arith)
        requires
            0 <= a <= b,
    ;
}

/// Rounding a quotient down loses less than the divisor: with
/// `t = den * (x / den)`, the square of `t` is at most the square of `x` and
/// at least that square less `2 * x * (den - 1)`.
pub(crate) proof fn lemma_floor_square(x: int, den: int)
    requires
        x >= 0,
        den > 0,
    ensures
        0 <= den * (x / den) <= x,
        (den * (x / den)) * (den * (x / den)) <= x * x,
        (den * (x / den)) * (den * (x / den)) >= x * x - 2 * x * (den - 1),
{
    let q = x / den;
    let t = den * q;
    assert(0 <= t <= x && x - t <= den - 1) by (nonlinear_arith)
        requires
            x >= 0,
            den > 0,
            q == x / den,
            t == den * q,
    ;
    assert(t * t <= x * x) by (nonlinear_arith)
        requires
            0 <= t <= x,
    ;
    let gap = den - 1;
    if x >= gap {
        assert(t * t >= (x - gap) * (x - gap)) by (nonlinear_arith)
            requires
                t >= x - gap,
                x - gap >= 0,
        ;
        assert((x - gap) * (x - gap) == x * x - 2 * x * gap + gap * gap) by (nonlinear_arith);
        assert(gap * gap >= 0) by (nonlinear_arith);
    } else {
        assert(x * x - 2 * x * gap <= 0) by (nonlinear_arith)
            requires
                0 <= x < gap,
        ;
        assert(t * t >= 0) by (nonlinear_arith);
    }
}

} // verus!
