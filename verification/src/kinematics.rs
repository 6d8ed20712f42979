//! Motion of the player's ship: turning, thrust, the speed cap and the
//! step along the velocity.

use vstd::prelude::*;
use vstd::arithmetic::div_mod::{lemma_add_mod_noop, lemma_mod_twice};
use crate::isqrt::{ceil_sqrt, ceil_sqrt_of, lemma_ceil_sqrt_dominates, lemma_ceil_sqrt_exists};
use crate::trig::{cos_q16, polar, polar_offset, sin_q16};
use crate::vector::{
    lemma_floor_square, lemma_scale_toward_zero_bounds, lemma_square_of_magnitude, magnitude,
    rescale, scale_toward_zero, Vec2, UNIT,
};

verus! {

/// Which quantity the speed cap compares with the maximum speed.
#[derive(Clone, Copy, Debug, PartialEq, Eq, Structural)]
pub enum SpeedCap {
    /// The squared speed, in world units, is compared with the maximum speed
    /// itself: the cap then sets in at the square root of the maximum.
    SquaredLength,
    /// The speed is compared with the maximum speed.
    Length,
}

/// The keys held during one frame.
#[derive(Clone, Copy, Debug, PartialEq, Eq, Structural)]
pub struct Controls {
    pub turn_left: bool,
    pub turn_right: bool,
    pub thrust: bool,
}

/// The squared length, in sub-units, above which a velocity is cut back.
pub open spec fn cap_threshold(max_speed: int, rule: SpeedCap) -> int {
    match rule {
        SpeedCap::SquaredLength => max_speed * UNIT,
        SpeedCap::Length => max_speed * max_speed,
    }
}

/// Whether the speed cap cuts `v` back.
pub open spec fn over_cap(v: Vec2, max_speed: int, rule: SpeedCap) -> bool {
    v.norm_sqr() > cap_threshold(max_speed, rule)
}

/// `v` after the speed cap: unchanged up to the threshold, beyond it
/// brought to the length `max_speed` in the same direction, each coordinate
/// rounded toward zero.
pub open spec fn capped(v: Vec2, max_speed: int, rule: SpeedCap) -> Vec2 {
    if over_cap(v, max_speed, rule) {
        let length = ceil_sqrt_of(v.norm_sqr());
        Vec2 {
            x: scale_toward_zero(v.x as int, max_speed, length) as i64,
            y: scale_toward_zero(v.y as int, max_speed, length) as i64,
        }
    } else {
        v
    }
}

/// Applies the speed cap to `v`.
pub fn cap_speed(v: Vec2, max_speed: u32, rule: SpeedCap) -> (r: Vec2)
    ensures
        r == capped(v, max_speed as int, rule),
{
    let length_sqr: u128 = v.length_sqr();
    let threshold: u128 = match rule {
        SpeedCap::SquaredLength => max_speed as u128 * 65536,
        SpeedCap::Length => {
            assert(max_speed * max_speed <= 0xffff_ffff * 0xffff_ffff) by (nonlinear_arith)
                requires
                    0 <= max_speed <= 0xffff_ffff,
            ;
            max_speed as u128 * max_speed as u128
        },
    };
    if length_sqr > threshold {
        let length: u128 = ceil_sqrt(length_sqr);
        proof {
            lemma_length_fits(v);
            lemma_scale_toward_zero_bounds(v.x as int, max_speed as int, length as int);
            lemma_scale_toward_zero_bounds(v.y as int, max_speed as int, length as int);
        }
        Vec2 {
            x: rescale(v.x, max_speed, length as u64),
            y: rescale(v.y, max_speed, length as u64),
        }
    } else {
        v
    }
}

/// The rounded-up length of a vector with `i64` coordinates fits in `u64`
/// and is at least as long as either coordinate.
pub(crate) proof fn lemma_length_fits(v: Vec2)
    ensures
        ceil_sqrt_of(v.norm_sqr()) <= u64::MAX,
        magnitude(v.x as int) <= ceil_sqrt_of(v.norm_sqr()),
        magnitude(v.y as int) <= ceil_sqrt_of(v.norm_sqr()),
        v.norm_sqr() > 0 ==> ceil_sqrt_of(v.norm_sqr()) > 0,
{
    let n = v.norm_sqr();
    let x = v.x as int;
    let y = v.y as int;
    assert(x * x >= 0 && y * y >= 0) by (nonlinear_arith);
    lemma_ceil_sqrt_exists(n);
    lemma_ceil_sqrt_dominates(n, x);
    lemma_ceil_sqrt_dominates(n, y);
    let r = ceil_sqrt_of(n);
    let top: int = 0x8000_0000_0000_0000;
    assert(x * x <= top * top) by (nonlinear_arith)
        requires
            -top <= x <= top,
    ;
    assert(y * y <= top * top) by (nonlinear_arith)
        requires
            -top <= y <= top,
    ;
    if r > u64::MAX {
        assert((r - 1) * (r - 1) >= 0xffff_ffff_ffff_ffff * 0xffff_ffff_ffff_ffff)
            by (nonlinear_arith)
            requires
                r - 1 >= 0xffff_ffff_ffff_ffff,
        ;
    }
}

/// How far below the maximum the capped speed may fall, the coordinates
/// being rounded: the squared length after a cut lies within
/// `2 * max_speed * cap_slack(max_speed)` of the squared maximum.
pub open spec fn cap_slack(max_speed: int) -> int {
    max_speed / (UNIT as int) + 3
}

/// Two lengths `a` and `b` whose vector has the rounded-up length `n`,
/// rescaled to the length `m` and rounded down, give a vector no longer than
/// `m` and not much shorter.
proof fn lemma_rescaled_length(a: int, b: int, m: int, n: int)
    requires
        a >= 0,
        b >= 0,
        m >= 0,
        n >= 1,
        (n - 1) * (n - 1) < a * a + b * b <= n * n,
    ensures
        ({
            let ra = (a * m) / n;
            let rb = (b * m) / n;
            &&& ra * ra + rb * rb <= m * m
            &&& n * n * (ra * ra + rb * rb) >= m * m * ((n - 1) * (n - 1)) - 4 * m * n * (n - 1)
        }),
{
    let ra = (a * m) / n;
    let rb = (b * m) / n;
    let big_a = a * m;
    let big_b = b * m;
    let ta = n * ra;
    let tb = n * rb;
    let s = a * a + b * b;
    assert(big_a >= 0 && big_b >= 0) by (nonlinear_arith)
        requires
            a >= 0,
            b >= 0,
            m >= 0,
            big_a == a * m,
            big_b == b * m,
    ;
    lemma_floor_square(big_a, n);
    lemma_floor_square(big_b, n);
    assert(a <= n && b <= n) by (nonlinear_arith)
        requires
            a >= 0,
            b >= 0,
            n >= 1,
            a * a + b * b <= n * n,
    ;
    // the squares of the rescaled lengths, times n * n
    assert(ta * ta == n * n * (ra * ra)) by (nonlinear_arith)
        requires
            ta == n * ra,
    ;
    assert(tb * tb == n * n * (rb * rb)) by (nonlinear_arith)
        requires
            tb == n * rb,
    ;
    assert(big_a * big_a + big_b * big_b == m * m * s) by (nonlinear_arith)
        requires
            big_a == a * m,
            big_b == b * m,
            s == a * a + b * b,
    ;
    let total = ra * ra + rb * rb;
    assert(n * n * total == ta * ta + tb * tb) by (nonlinear_arith)
        requires
            ta * ta == n * n * (ra * ra),
            tb * tb == n * n * (rb * rb),
            total == ra * ra + rb * rb,
    ;
    // above: no longer than m
    assert(m * m * s <= m * m * (n * n)) by (nonlinear_arith)
        requires
            s <= n * n,
    ;
    assert(total <= m * m) by (nonlinear_arith)
        requires
            n * n * total <= m * m * (n * n),
            n >= 1,
    ;
    // below
    assert(2 * big_a * (n - 1) + 2 * big_b * (n - 1) <= 4 * m * n * (n - 1)) by (nonlinear_arith)
        requires
            big_a == a * m,
            big_b == b * m,
            0 <= a <= n,
            0 <= b <= n,
            m >= 0,
            n >= 1,
    ;
    assert(m * m * s >= m * m * ((n - 1) * (n - 1))) by (nonlinear_arith)
        requires
            s > (n - 1) * (n - 1),
    ;
}

/// After the speed cap has cut a velocity back, its length is the maximum
/// speed: never above it, and below it by no more than rounding explains.
pub proof fn lemma_cap_speed_reaches_max(v: Vec2, max_speed: u32, rule: SpeedCap)
    requires
        over_cap(v, max_speed as int, rule),
    ensures
        capped(v, max_speed as int, rule).norm_sqr() <= max_speed * max_speed,
        capped(v, max_speed as int, rule).norm_sqr() >= max_speed * max_speed - 2 * max_speed
            * cap_slack(max_speed as int),
{
    let m = max_speed as int;
    let a = magnitude(v.x as int);
    let b = magnitude(v.y as int);
    let s = v.norm_sqr();
    let n = ceil_sqrt_of(s);
    lemma_length_fits(v);
    lemma_ceil_sqrt_exists(s);
    lemma_square_of_magnitude(v.x as int);
    lemma_square_of_magnitude(v.y as int);
    assert(cap_threshold(m, rule) >= 0) by (nonlinear_arith)
        requires
            m >= 0,
            cap_threshold(m, rule) == m * 65536 || cap_threshold(m, rule) == m * m,
    ;
    lemma_rescaled_length(a, b, m, n);
    let ra = (a * m) / n;
    let rb = (b * m) / n;
    lemma_scale_toward_zero_bounds(v.x as int, m, n);
    lemma_scale_toward_zero_bounds(v.y as int, m, n);
    let r = capped(v, m, rule);
    lemma_square_of_magnitude(r.x as int);
    lemma_square_of_magnitude(r.y as int);
    let total = ra * ra + rb * rb;
    assert(r.norm_sqr() == total);
    // the rounded-up length times the slack reaches the maximum speed
    let q = m / 65536 + 1;
    assert(q * n >= m) by {
        match rule {
            SpeedCap::Length => {
                assert(n > m) by (nonlinear_arith)
                    requires
                        n * n >= s,
                        s > m * m,
                        n >= 0,
                        m >= 0,
                ;
                assert(q * n >= n) by (nonlinear_arith)
                    requires
                        q >= 1,
                        n >= 0,
                ;
            },
            SpeedCap::SquaredLength => {
                assert(q * 65536 > m);
                if q * n < m {
                    assert(false) by (nonlinear_arith)
                        requires
                            q * n < m,
                            q >= 1,
                            n >= 1,
                            m >= 0,
                            q * 65536 > m,
                            n * n > m * 65536,
                    ;
                }
            },
        }
    }
    let t = cap_slack(m);
    assert(t == q + 2);
    assert(m * m * ((n - 1) * (n - 1)) - 4 * m * n * (n - 1) >= n * n * (m * m - 2 * m * t))
        by (nonlinear_arith)
        requires
            (t - 2) * n >= m,
            m >= 0,
            n >= 1,
    ;
    assert(total >= m * m - 2 * m * t) by (nonlinear_arith)
        requires
            n * n * total >= n * n * (m * m - 2 * m * t),
            n >= 1,
    ;
}

/// A velocity that the cap does not cut back is left as it is.
pub proof fn lemma_cap_speed_keeps_slow(v: Vec2, max_speed: u32, rule: SpeedCap)
    requires
        !over_cap(v, max_speed as int, rule),
    ensures
        capped(v, max_speed as int, rule) == v,
{
}

/// `v` brought into the range of `i32`.
pub open spec fn clamp_i32(v: int) -> int {
    if v > i32::MAX {
        i32::MAX as int
    } else if v < i32::MIN {
        i32::MIN as int
    } else {
        v
    }
}

/// The turn of one frame: each held key turns by `rotation_speed`, the
/// right key one way and the left key the other; both together cancel.
pub open spec fn turn(rotation_speed: int, controls: Controls) -> int {
    let right = if controls.turn_right {
        rotation_speed
    } else {
        0
    };
    let left = if controls.turn_left {
        rotation_speed
    } else {
        0
    };
    right - left
}

/// The heading after one frame of turning: the old heading plus the turn.
/// It is not brought back into one full turn; it is held at the nearest end
/// of the range of `i32` where the sum leaves that range.
pub open spec fn turned(rotation: int, rotation_speed: int, controls: Controls) -> int {
    clamp_i32(rotation + turn(rotation_speed, controls))
}

/// Both turn keys held together leave the heading where it is, and so do
/// none; one key alone turns by `rotation_speed`, wherever the heading
/// stands, inside a full turn or not.
pub proof fn lemma_turn_keys_cancel(rotation: i32, rotation_speed: i32, thrust: bool)
    ensures
        turned(
            rotation as int,
            rotation_speed as int,
            Controls { turn_left: true, turn_right: true, thrust },
        ) == rotation,
        turned(
            rotation as int,
            rotation_speed as int,
            Controls { turn_left: false, turn_right: false, thrust },
        ) == rotation,
        i32::MIN <= rotation + rotation_speed <= i32::MAX ==> turned(
            rotation as int,
            rotation_speed as int,
            Controls { turn_left: false, turn_right: true, thrust },
        ) == rotation + rotation_speed,
        i32::MIN <= rotation - rotation_speed <= i32::MAX ==> turned(
            rotation as int,
            rotation_speed as int,
            Controls { turn_left: true, turn_right: false, thrust },
        ) == rotation - rotation_speed,
{
}

/// A heading stands for a direction whether or not it lies inside one full
/// turn: its sine, its cosine and every displacement along it are those of
/// the heading reduced to the range from 0 to 359 degrees.
pub proof fn lemma_turning_keeps_direction(heading: int, length: int)
    ensures
        0 <= heading % 360 < 360,
        sin_q16(heading) == sin_q16(heading % 360),
        cos_q16(heading) == cos_q16(heading % 360),
        polar(length, heading) == polar(length, heading % 360),
{
    lemma_mod_twice(heading, 360);
    lemma_add_mod_noop(heading, 90, 360);
    lemma_add_mod_noop(heading % 360, 90, 360);
}

/// The player's ship.
#[derive(Clone, Copy, Debug, PartialEq, Eq, Structural)]
pub struct Player {
    /// Where the ship is, in world space.
    pub position: Vec2,
    /// The displacement per frame.
    pub velocity: Vec2,
    /// The length that one frame of thrust adds to the velocity.
    pub speed: u32,
    /// Degrees turned per frame while a turn key is held.
    pub rotation_speed: i32,
    /// The heading in degrees; it may lie outside one full turn.
    pub rotation: i32,
    /// The length to which the speed cap cuts the velocity back.
    pub max_speed: u32,
    /// Whether thrust was applied in the last frame.
    pub boost: bool,
}

impl Player {
    /// The ship after one frame: it turns, thrust along the new heading is
    /// added to the velocity, the velocity is capped, and the position moves
    /// along it.
    pub open spec fn updated(self, controls: Controls, rule: SpeedCap) -> Player {
        let rotation = turned(self.rotation as int, self.rotation_speed as int, controls) as i32;
        let pushed = if controls.thrust {
            self.velocity.plus(polar(self.speed as int, rotation as int))
        } else {
            self.velocity
        };
        let velocity = capped(pushed, self.max_speed as int, rule);
        Player {
            position: self.position.plus(velocity),
            velocity,
            speed: self.speed,
            rotation_speed: self.rotation_speed,
            rotation,
            max_speed: self.max_speed,
            boost: controls.thrust,
        }
    }

    /// A ship at rest at the origin, heading 0 degrees, shown with its boost flame.
    pub fn new(speed: u32, rotation_speed: i32, max_speed: u32) -> (p: Player)
        ensures
            p == (Player {
                position: Vec2 { x: 0, y: 0 },
                velocity: Vec2 { x: 0, y: 0 },
                speed,
                rotation_speed,
                rotation: 0,
                max_speed,
                boost: true,
            }),
    {
        Player {
            position: Vec2::zero(),
            velocity: Vec2::zero(),
            speed,
            rotation_speed,
            rotation: 0,
            max_speed,
            boost: true,
        }
    }

    /// Advances the ship by one frame.
    pub fn update(&mut self, controls: Controls, rule: SpeedCap)
        ensures
            *final(self) == old(self).updated(controls, rule),
    {
        let mut heading: i64 = self.rotation as i64;
        if controls.turn_right {
            heading = heading + self.rotation_speed as i64;
        }
        if controls.turn_left {
            heading = heading - self.rotation_speed as i64;
        }
        self.rotation = if heading > i32::MAX as i64 {
            i32::MAX
        } else if heading < i32::MIN as i64 {
            i32::MIN
        } else {
            heading as i32
        };
        if controls.thrust {
            self.velocity = self.velocity.saturating_add(polar_offset(self.speed, self.rotation));
        }
        self.boost = controls.thrust;
        self.velocity = cap_speed(self.velocity, self.max_speed, rule);
        self.position = self.position.saturating_add(self.velocity);
    }
}

/// After any update the ship is no faster than its maximum speed, provided
/// the cap's threshold is not above that maximum: with `SpeedCap::Length`
/// always, with `SpeedCap::SquaredLength` for a maximum of at least one
/// world unit per frame.
pub proof fn lemma_update_respects_max_speed(p: Player, controls: Controls, rule: SpeedCap)
    requires
        rule == SpeedCap::Length || p.max_speed >= UNIT,
    ensures
        p.updated(controls, rule).velocity.norm_sqr() <= p.max_speed * p.max_speed,
{
    let m = p.max_speed as int;
    let rotation = turned(p.rotation as int, p.rotation_speed as int, controls) as i32;
    let pushed = if controls.thrust {
        p.velocity.plus(polar(p.speed as int, rotation as int))
    } else {
        p.velocity
    };
    if over_cap(pushed, m, rule) {
        lemma_cap_speed_reaches_max(pushed, p.max_speed, rule);
    } else {
        assert(cap_threshold(m, rule) <= m * m) by (nonlinear_arith)
            requires
                cap_threshold(m, rule) == m * m || (cap_threshold(m, rule) == m * 65536 && m
                    >= 65536),
        ;
    }
}

} // verus!
