//! The spawner: when new obstacles appear, how many, and where.

use rand::rngs::StdRng;
use rand::Rng;
use vstd::prelude::*;
use crate::obstacle::Obstacle;
use crate::trig::{lemma_polar_length, polar, polar_offset, polar_slack};
use crate::vector::{distance_sqr, Vec2, UNIT};

verus! {

/// `rand::rngs::StdRng`, the seedable pseudo-random generator that the
/// spawner draws from. Nothing is stated of what it holds.
#[verifier::external_type_specification]
#[verifier::external_body]
pub struct ExStdRng(StdRng);

/// How far from the player an obstacle appears: 400 world units.
pub const SPAWN_DISTANCE: u32 = 26214400;

/// The time between two spawns, in microseconds.
pub const SPAWN_INTERVAL: i64 = 500000;

/// The time before the first spawn of a game, in microseconds.
pub const FIRST_SPAWN_DELAY: i64 = 1000000;

/// The least speed of a new obstacle, in world units per frame.
pub const MIN_SPAWN_SPEED: u8 = 2;

/// The greatest speed of a new obstacle, in world units per frame.
pub const MAX_SPAWN_SPEED: u8 = 4;

/// The heading of a new obstacle is turned by at least `-HEADING_JITTER`
/// and by less than `HEADING_JITTER` degrees.
pub const HEADING_JITTER: i8 = 20;

/// The survival time, in microseconds, after which a ramped wave grows by
/// one obstacle: ten seconds.
pub const RAMP_PERIOD: u64 = 10000000;

/// How many obstacles one spawn brings.
#[derive(Clone, Copy, Debug, PartialEq, Eq, Structural)]
pub enum SpawnScaling {
    /// Always one.
    Fixed,
    /// One, and one more for every ten seconds survived.
    TimeRamped,
}

/// The number of obstacles that a spawn brings after `timer` microseconds
/// of survival.
pub open spec fn wave_size(timer: int, scaling: SpawnScaling) -> int {
    match scaling {
        SpawnScaling::Fixed => 1,
        SpawnScaling::TimeRamped => (timer + RAMP_PERIOD) / (RAMP_PERIOD as int),
    }
}

/// The number of obstacles that a spawn brings after `timer` microseconds
/// of survival.
pub fn spawn_count(timer: u64, scaling: SpawnScaling) -> (n: u64)
    ensures
        n == wave_size(timer as int, scaling),
{
    match scaling {
        SpawnScaling::Fixed => 1,
        SpawnScaling::TimeRamped => timer / RAMP_PERIOD + 1,
    }
}

/// A spawn brings at least one obstacle, a ramped one never fewer than an
/// earlier one, and exactly one more once ten more seconds are survived.
pub proof fn lemma_wave_grows_with_time(earlier: u64, later: u64, scaling: SpawnScaling)
    requires
        earlier <= later,
    ensures
        1 <= wave_size(earlier as int, scaling) <= wave_size(later as int, scaling),
        wave_size(earlier as int, SpawnScaling::Fixed) == 1,
        wave_size(earlier + RAMP_PERIOD, SpawnScaling::TimeRamped) == wave_size(
            earlier as int,
            SpawnScaling::TimeRamped,
        ) + 1,
{
}

/// The three numbers drawn for one new obstacle.
#[derive(Clone, Copy, Debug, PartialEq, Eq, Structural)]
pub struct SpawnDraw {
    /// The direction from the player in which the obstacle appears, in degrees.
    pub bearing: u16,
    /// Its speed in world units per frame.
    pub speed: u8,
    /// The degrees by which its heading is turned off the mirrored bearing.
    pub jitter: i8,
}

impl SpawnDraw {
    /// Whether the three numbers lie in the ranges they are drawn from.
    pub open spec fn in_range(self) -> bool {
        &&& self.bearing < 360
        &&& MIN_SPAWN_SPEED <= self.speed <= MAX_SPAWN_SPEED
        &&& -HEADING_JITTER <= self.jitter < HEADING_JITTER
    }
}

/// The obstacle that the draw stands for when the player is at `player`:
/// it appears at `SPAWN_DISTANCE` from the player in the direction of the
/// bearing, and its heading is the bearing mirrored, `360 - bearing`,
/// turned by the jitter.
pub open spec fn placed(player: Vec2, draw: SpawnDraw) -> Obstacle {
    Obstacle {
        position: player.plus(polar(SPAWN_DISTANCE as int, draw.bearing as int)),
        speed: (draw.speed * UNIT) as u32,
        rotation: (360 - draw.bearing + draw.jitter) as i32,
    }
}

/// A new obstacle appears at `SPAWN_DISTANCE` from the player, up to the
/// rounding of its two coordinates, whatever the bearing: wherever the
/// point at that distance lies inside the range of the coordinates.
pub proof fn lemma_spawn_distance(player: Vec2, draw: SpawnDraw)
    requires
        player.can_add(polar(SPAWN_DISTANCE as int, draw.bearing as int)),
    ensures
        SPAWN_DISTANCE * SPAWN_DISTANCE - polar_slack(SPAWN_DISTANCE as int) <= distance_sqr(
            placed(player, draw).position,
            player,
        ) <= SPAWN_DISTANCE * SPAWN_DISTANCE + polar_slack(SPAWN_DISTANCE as int),
{
    lemma_polar_length(SPAWN_DISTANCE as int, draw.bearing as int);
}

/// Makes the obstacle that the draw stands for.
pub fn place(player: Vec2, draw: SpawnDraw) -> (body: Obstacle)
    ensures
        body == placed(player, draw),
{
    Obstacle {
        position: player.saturating_add(polar_offset(SPAWN_DISTANCE, draw.bearing as i32)),
        speed: draw.speed as u32 * 65536,
        rotation: 360 - draw.bearing as i32 + draw.jitter as i32,
    }
}

/// The obstacles that the draws of `wave` stand for, in their order.
pub open spec fn placed_all(player: Vec2, wave: Seq<SpawnDraw>) -> Seq<Obstacle> {
    Seq::new(wave.len(), |i: int| placed(player, wave[i]))
}

/// Appends to `obstacles` the obstacle of each draw of `wave`.
pub fn place_wave(player: Vec2, wave: &Vec<SpawnDraw>, obstacles: &mut Vec<Obstacle>)
    ensures
        final(obstacles)@ == old(obstacles)@ + placed_all(player, wave@),
{
    let n: usize = wave.len();
    let mut i: usize = 0;
    assert(obstacles@ =~= old(obstacles)@ + placed_all(player, wave@.take(0)));
    while i < n
        invariant
            i <= n,
            n == wave.len(),
            obstacles@ == old(obstacles)@ + placed_all(player, wave@.take(i as int)),
        decreases n - i,
    {
        obstacles.push(place(player, wave[i]));
        assert(placed_all(player, wave@.take(i as int)).push(placed(player, wave@[i as int]))
            =~= placed_all(player, wave@.take(i as int + 1)));
        assert(obstacles@ =~= old(obstacles)@ + placed_all(player, wave@.take(i as int + 1)));
        i = i + 1;
    }
    assert(wave@.take(n as int) =~= wave@);
}

/// `rand::Rng::gen_range` on the half-open range from `low` to `high`: the
/// number drawn is at least `low` and less than `high`. Which one it is
/// depends on the generator's state, of which nothing is stated. The range
/// must not be empty: the call panics on an empty one.
#[verifier::external_body]
fn uniform(rng: &mut StdRng, low: i32, high: i32) -> (r: i32)
    requires
        low < high,
    ensures
        low <= r < high,
{
    rng.gen_range(low..high)
}

/// Draws the three numbers for one new obstacle.
pub fn draw_spawn(rng: &mut StdRng) -> (draw: SpawnDraw)
    ensures
        draw.in_range(),
{
    let bearing: i32 = uniform(rng, 0, 360);
    let speed: i32 = uniform(rng, MIN_SPAWN_SPEED as i32, MAX_SPAWN_SPEED as i32 + 1);
    let jitter: i32 = uniform(rng, -(HEADING_JITTER as i32), HEADING_JITTER as i32);
    SpawnDraw { bearing: bearing as u16, speed: speed as u8, jitter: jitter as i8 }
}

/// Whether every draw of `wave` lies in the ranges it is drawn from.
pub open spec fn all_in_range(wave: Seq<SpawnDraw>) -> bool {
    forall|i: int| 0 <= i < wave.len() ==> (#[trigger] wave[i]).in_range()
}

/// Draws the numbers for `count` new obstacles.
pub fn draw_wave(rng: &mut StdRng, count: u64) -> (wave: Vec<SpawnDraw>)
    ensures
        wave@.len() == count,
        all_in_range(wave@),
{
    let mut wave: Vec<SpawnDraw> = Vec::new();
    let mut i: u64 = 0;
    while i < count
        invariant
            i <= count,
            wave@.len() == i,
            all_in_range(wave@),
        decreases count - i,
    {
        let draw: SpawnDraw = draw_spawn(rng);
        wave.push(draw);
        i = i + 1;
    }
    wave
}

/// The countdown to the next spawn.
#[derive(Clone, Copy, Debug, PartialEq, Eq, Structural)]
pub struct Spawner {
    /// Microseconds until the next spawn.
    pub cooldown: i64,
}

impl Spawner {
    /// What is left of the countdown once a frame of `dt` microseconds is
    /// taken off it.
    pub open spec fn left_after(self, dt: u32) -> int {
        self.cooldown - dt
    }

    /// Whether a spawn is due in a frame that takes `dt` microseconds: the
    /// countdown, less the time of the frame, reaches zero or below.
    pub open spec fn is_due(self, dt: u32) -> bool {
        self.left_after(dt) <= 0
    }

    /// The countdown after a frame that took `dt` microseconds: `dt`
    /// shorter, and started anew where that brought the spawn.
    pub open spec fn after_frame(self, dt: u32) -> Spawner {
        if self.is_due(dt) {
            Spawner { cooldown: SPAWN_INTERVAL }
        } else {
            Spawner { cooldown: self.left_after(dt) as i64 }
        }
    }

    /// The countdown at the start of a game.
    pub fn new() -> (s: Spawner)
        ensures
            s == (Spawner { cooldown: FIRST_SPAWN_DELAY }),
    {
        Spawner { cooldown: FIRST_SPAWN_DELAY }
    }

    /// Tells whether a spawn is due in a frame that takes `dt` microseconds.
    pub fn due(&self, dt: u32) -> (d: bool)
        ensures
            d == self.is_due(dt),
    {
        self.cooldown <= dt as i64
    }

    /// Lets a frame of `dt` microseconds pass: counts down, and where the
    /// countdown reaches zero or below starts it anew. Tells whether a
    /// spawn was due in the frame.
    pub fn poll(&mut self, dt: u32) -> (due: bool)
        ensures
            due == old(self).is_due(dt),
            *final(self) == old(self).after_frame(dt),
    {
        if self.cooldown <= dt as i64 {
            self.cooldown = SPAWN_INTERVAL;
            true
        } else {
            self.cooldown = self.cooldown - dt as i64;
            false
        }
    }
}

/// A frame brings a spawn exactly when the countdown does not outlast it;
/// after a spawn the countdown stands at `SPAWN_INTERVAL` whatever it was,
/// and without one it is shorter by the time of the frame and still above
/// zero.
pub proof fn lemma_countdown(s: Spawner, dt: u32)
    ensures
        s.is_due(dt) <==> s.cooldown <= dt,
        s.is_due(dt) ==> s.after_frame(dt).cooldown == SPAWN_INTERVAL,
        !s.is_due(dt) ==> s.after_frame(dt).cooldown == s.cooldown - dt && s.after_frame(
            dt,
        ).cooldown > 0,
{
}

} // verus!
