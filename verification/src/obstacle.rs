//! Drifting obstacles.

use vstd::prelude::*;
use crate::trig::{polar, polar_offset};
use crate::vector::Vec2;

verus! {

/// A body that drifts in a straight line at constant speed.
#[derive(Clone, Copy, Debug, PartialEq, Eq, Structural)]
pub struct Obstacle {
    /// Where the body is, in world space.
    pub position: Vec2,
    /// The length of its displacement per frame.
    pub speed: u32,
    /// The direction of its drift and of its picture, in degrees.
    pub rotation: i32,
}

impl Obstacle {
    /// The body one frame later: moved by `speed` along `rotation`, never
    /// turning and never slowing down.
    pub open spec fn drifted(self) -> Obstacle {
        Obstacle {
            position: self.position.plus(polar(self.speed as int, self.rotation as int)),
            speed: self.speed,
            rotation: self.rotation,
        }
    }

    /// Advances the body by one frame.
    pub fn update(&mut self)
        ensures
            *final(self) == old(self).drifted(),
    {
        self.position = self.position.saturating_add(polar_offset(self.speed, self.rotation));
    }
}

/// The body `k` frames later.
pub open spec fn drifted_n(body: Obstacle, k: nat) -> Obstacle
    decreases k,
{
    if k == 0 {
        body
    } else {
        drifted_n(body, (k - 1) as nat).drifted()
    }
}

/// An obstacle drifts along a straight line: after `k` frames it has moved
/// by `k` times its step of one frame, with the speed and the heading it
/// had, as long as its path stays inside the range of the coordinates.
pub proof fn lemma_drift_is_linear(body: Obstacle, k: nat)
    requires
        i64::MIN <= body.position.x + k * polar(body.speed as int, body.rotation as int).x
            <= i64::MAX,
        i64::MIN <= body.position.y + k * polar(body.speed as int, body.rotation as int).y
            <= i64::MAX,
    ensures
        drifted_n(body, k) == (Obstacle {
            position: Vec2 {
                x: (body.position.x + k * polar(body.speed as int, body.rotation as int).x) as i64,
                y: (body.position.y + k * polar(body.speed as int, body.rotation as int).y) as i64,
            },
            speed: body.speed,
            rotation: body.rotation,
        }),
    decreases k,
{
    let step = polar(body.speed as int, body.rotation as int);
    if k == 0 {
        assert(k * step.x == 0 && k * step.y == 0) by (nonlinear_arith)
            requires
                k == 0,
        ;
    } else {
        let j = (k - 1) as nat;
        lemma_between(j as int, k as int, step.x as int);
        lemma_between(j as int, k as int, step.y as int);
        lemma_drift_is_linear(body, j);
        assert(k * step.x == j * step.x + step.x && k * step.y == j * step.y + step.y)
            by (nonlinear_arith)
            requires
                k == j + 1,
        ;
    }
}

/// A shorter multiple of a step lies between nothing and a longer multiple.
proof fn lemma_between(j: int, k: int, step: int)
    requires
        0 <= j <= k,
    ensures
        step >= 0 ==> 0 <= j * step <= k * step,
        step <= 0 ==> k * step <= j * step <= 0,
{
    assert(step >= 0 ==> 0 <= j * step <= k * step) by (nonlinear_arith)
        requires
            0 <= j <= k,
    ;
    assert(step <= 0 ==> k * step <= j * step <= 0) by (nonlinear_arith)
        requires
            0 <= j <= k,
    ;
}

/// Every body of `s` one frame later, in the same order.
pub open spec fn drifted_all(s: Seq<Obstacle>) -> Seq<Obstacle> {
    Seq::new(s.len(), |i: int| s[i].drifted())
}

/// Advances every obstacle by one frame.
pub fn drift_all(obstacles: &mut Vec<Obstacle>)
    ensures
        final(obstacles)@ == drifted_all(old(obstacles)@),
{
    let n: usize = obstacles.len();
    let mut i: usize = 0;
    while i < n
        invariant
            i <= n,
            obstacles.len() == n,
            n == old(obstacles).len(),
            forall|j: int| 0 <= j < i ==> obstacles@[j] == old(obstacles)@[j].drifted(),
            forall|j: int| i <= j < n ==> obstacles@[j] == old(obstacles)@[j],
        decreases n - i,
    {
        let mut body: Obstacle = obstacles[i];
        body.update();
        obstacles.set(i, body);
        i = i + 1;
    }
    assert(obstacles@ =~= drifted_all(old(obstacles)@));
}

} // verus!
