//! The game: its phases, the state of one game, and the step that one
//! frame takes.

use rand::rngs::StdRng;
use vstd::prelude::*;
use crate::collision::{
    any_hit, hits_player, lemma_no_hit_keeps_all, lemma_sweep_tests_every_obstacle, survivors,
    sweep,
};
use crate::kinematics::{lemma_update_respects_max_speed, Controls, Player, SpeedCap};
use crate::obstacle::{drift_all, drifted_all, Obstacle};
use crate::particles::{lemma_ticked_len, pushed, ticked, Particle, ParticleBuffer};
use crate::spawner::{
    all_in_range, draw_wave, place_wave, placed_all, spawn_count, wave_size, SpawnDraw,
    SpawnScaling, Spawner, FIRST_SPAWN_DELAY,
};
use crate::menu::{
    clicks, is_clicked, play_button, play_button_area, quit_button, quit_button_area, Pointer,
};
use crate::phase::{may_follow, next_phase, Outcome, Phase};
use crate::trig::lemma_polar_bounds;
use crate::vector::{span, Vec2, UNIT};

verus! {

/// The length that one frame of thrust adds to the player's velocity:
/// a twentieth of a world unit.
pub const PLAYER_THRUST: u32 = 3277;

/// The degrees that the player turns per frame.
pub const PLAYER_TURN_RATE: i32 = 2;

/// The player's maximum speed: two world units per frame.
pub const PLAYER_MAX_SPEED: u32 = 131072;

/// What a game is set up with.
#[derive(Clone, Copy, Debug, PartialEq, Eq, Structural)]
pub struct Config {
    /// Whether the game opens in the main menu; without one it opens in play.
    pub menu: bool,
    /// How many obstacles a spawn brings.
    pub spawn_scaling: SpawnScaling,
    /// What the speed cap compares.
    pub speed_cap: SpeedCap,
    /// The most particles kept at a time; with zero none is kept.
    pub particle_capacity: usize,
}

impl Default for Config {
    /// The full game: a main menu, waves that grow with the time survived,
    /// the speed cap on the squared length, and room for 64 particles.
    fn default() -> (config: Config)
        ensures
            config == (Config {
                menu: true,
                spawn_scaling: SpawnScaling::TimeRamped,
                speed_cap: SpeedCap::SquaredLength,
                particle_capacity: 64,
            }),
    {
        Config {
            menu: true,
            spawn_scaling: SpawnScaling::TimeRamped,
            speed_cap: SpeedCap::SquaredLength,
            particle_capacity: 64,
        }
    }
}

/// What the player, the pointer and the clock did in one frame.
#[derive(Clone, Copy, Debug, PartialEq, Eq, Structural)]
pub struct FrameInput {
    /// The keys held.
    pub controls: Controls,
    /// The pointer.
    pub pointer: Pointer,
    /// The time the frame took, in microseconds.
    pub dt: u32,
}

/// `v`, held at the greatest value of `u64` where it is above it.
pub open spec fn clamp_u64(v: int) -> u64 {
    if v > u64::MAX {
        u64::MAX
    } else {
        v as u64
    }
}

/// The ship at the start of a game.
pub open spec fn fresh_player() -> Player {
    Player {
        position: Vec2 { x: 0, y: 0 },
        velocity: Vec2 { x: 0, y: 0 },
        speed: PLAYER_THRUST,
        rotation_speed: PLAYER_TURN_RATE,
        rotation: 0,
        max_speed: PLAYER_MAX_SPEED,
        boost: true,
    }
}

/// The state of a game as contracts see it.
pub struct GameModel {
    /// What the game was set up with.
    pub config: Config,
    /// The mode the game is in.
    pub phase: Phase,
    /// The player's ship.
    pub player: Player,
    /// The obstacles, in the order in which they appeared.
    pub obstacles: Seq<Obstacle>,
    /// The particles, oldest first.
    pub particles: Seq<Particle>,
    /// The time survived in this game, in microseconds.
    pub timer: u64,
    /// The point the camera looks at.
    pub camera: Vec2,
    /// The countdown to the next spawn.
    pub spawner: Spawner,
}

impl GameModel {
    /// What holds of every state of a game: the camera looks at the
    /// player, and the particles are no more than the capacity.
    pub open spec fn consistent(self) -> bool {
        &&& self.camera == self.player.position
        &&& self.particles.len() <= self.config.particle_capacity
    }

    /// The state in which a game set up with `config` begins.
    pub open spec fn initial(config: Config) -> GameModel {
        GameModel {
            config,
            phase: if config.menu {
                Phase::MainMenu
            } else {
                Phase::Playing
            },
            player: fresh_player(),
            obstacles: Seq::empty(),
            particles: Seq::empty(),
            timer: 0,
            camera: Vec2 { x: 0, y: 0 },
            spawner: Spawner { cooldown: FIRST_SPAWN_DELAY },
        }
    }

    /// The state after a restart: that of a new game, already in play.
    pub open spec fn restarted(self) -> GameModel {
        GameModel { phase: Phase::Playing, ..Self::initial(self.config) }
    }

    /// The number of obstacles that a frame of `dt` microseconds is to
    /// spawn: a wave where the game is in play and the countdown reaches
    /// zero or below in the frame, else none. The size of the wave goes by
    /// the timer as it stands before the frame.
    pub open spec fn due_wave_size(self, dt: u32) -> int {
        if self.phase == Phase::Playing && self.spawner.is_due(dt) {
            wave_size(self.timer as int, self.config.spawn_scaling)
        } else {
            0
        }
    }

    /// The state after one simulation step in which the obstacles of
    /// `wave` appear. In this order: the countdown to the next spawn goes
    /// on and, where it runs out, starts anew; the new obstacles appear
    /// around the player; the player moves;
    /// every obstacle moves, the new ones too; the obstacles that now
    /// hit the player are removed, and if there is one the game is over; the
    /// timer advances; the camera follows the player; the particles age.
    pub open spec fn stepped(self, wave: Seq<SpawnDraw>, controls: Controls, dt: u32) -> GameModel {
        let player = self.player.updated(controls, self.config.speed_cap);
        let moved = drifted_all(self.obstacles + placed_all(self.player.position, wave));
        GameModel {
            config: self.config,
            phase: next_phase(self.phase, false, any_hit(player.position, moved)),
            player,
            obstacles: survivors(player.position, moved),
            particles: ticked(self.particles),
            timer: clamp_u64(self.timer + dt),
            camera: player.position,
            spawner: self.spawner.after_frame(dt),
        }
    }
}

/// Whether `wave` can be the draws of a frame of `dt` microseconds from the
/// state `m`: as many as that frame is to spawn, each in the ranges it is
/// drawn from.
pub open spec fn is_wave_for(m: GameModel, wave: Seq<SpawnDraw>, dt: u32) -> bool {
    &&& wave.len() == m.due_wave_size(dt)
    &&& all_in_range(wave)
}

/// The state after a frame with the given input, in which the obstacles of
/// `wave` appear if the frame is one of play. In a menu only a click on
/// the play button changes anything: from the main menu the game goes into
/// play as it stands, after a game it starts anew.
pub open spec fn after_frame(m: GameModel, input: FrameInput, wave: Seq<SpawnDraw>) -> GameModel {
    let play = clicks(input.pointer, play_button_area());
    match m.phase {
        Phase::MainMenu => GameModel { phase: next_phase(m.phase, play, false), ..m },
        Phase::Playing => m.stepped(wave, input.controls, input.dt),
        Phase::GameOver => if play {
            m.restarted()
        } else {
            m
        },
    }
}

/// What the caller is to do after a frame from the state `m`: leave when
/// the quit button is clicked in a menu, else go on.
pub open spec fn frame_outcome(m: GameModel, input: FrameInput) -> Outcome {
    if m.phase != Phase::Playing && clicks(input.pointer, quit_button_area()) {
        Outcome::Quit
    } else {
        Outcome::Continue
    }
}

/// A restart gives a game in play with the timer at zero and no obstacle,
/// whatever the state before it; a click on the play button after a game is
/// such a restart.
pub proof fn lemma_restart_resets(m: GameModel, input: FrameInput, wave: Seq<SpawnDraw>)
    ensures
        m.restarted().phase == Phase::Playing,
        m.restarted().timer == 0,
        m.restarted().obstacles == Seq::<Obstacle>::empty(),
        m.restarted().config == m.config,
        m.phase == Phase::GameOver && clicks(input.pointer, play_button_area()) ==> after_frame(
            m,
            input,
            wave,
        ) == m.restarted(),
{
}

/// Whatever a frame brings, the phase stays or follows one arrow, the
/// camera still looks at the player, the particles are no more than the
/// capacity, and the timer has not gone back unless the game was started anew.
pub proof fn lemma_frame_keeps_invariants(m: GameModel, input: FrameInput, wave: Seq<SpawnDraw>)
    requires
        m.consistent(),
    ensures
        after_frame(m, input, wave).consistent(),
        may_follow(m.phase, after_frame(m, input, wave).phase),
        after_frame(m, input, wave).config == m.config,
        m.phase != Phase::GameOver ==> after_frame(m, input, wave).timer >= m.timer,
        m.phase == Phase::MainMenu ==> after_frame(m, input, wave).timer == m.timer,
{
    if m.phase == Phase::Playing {
        lemma_ticked_len(m.particles);
    }
}

/// A simulation step ends the game exactly when an obstacle hits the
/// player after both have moved; none of the obstacles left hits.
pub proof fn lemma_step_detects_collisions(
    m: GameModel,
    wave: Seq<SpawnDraw>,
    controls: Controls,
    dt: u32,
)
    requires
        m.phase == Phase::Playing,
    ensures
        ({
            let after = m.stepped(wave, controls, dt);
            let moved = drifted_all(m.obstacles + placed_all(m.player.position, wave));
            &&& after.phase == Phase::GameOver <==> any_hit(after.player.position, moved)
            &&& after.phase == Phase::Playing <==> !any_hit(after.player.position, moved)
            &&& !any_hit(after.player.position, after.obstacles)
            &&& after.phase == Phase::Playing ==> after.obstacles == moved
        }),
{
    let after = m.stepped(wave, controls, dt);
    let moved = drifted_all(m.obstacles + placed_all(m.player.position, wave));
    lemma_sweep_tests_every_obstacle(after.player.position, moved);
    if !any_hit(after.player.position, moved) {
        lemma_no_hit_keeps_all(after.player.position, moved);
    }
}

/// An obstacle that lies exactly where the player is ends the game in the
/// next step and is removed by it, whatever the keys and wherever on the
/// plane, as long as the two cannot part by more than the sum of their hit
/// radii within one frame: the player keeps to its maximum speed, and that
/// speed and the obstacle's together are at most 20 world units per frame.
pub proof fn lemma_obstacle_on_player_ends_game(
    m: GameModel,
    i: int,
    wave: Seq<SpawnDraw>,
    controls: Controls,
    dt: u32,
)
    requires
        m.phase == Phase::Playing,
        0 <= i < m.obstacles.len(),
        m.obstacles[i].position == m.player.position,
        m.config.speed_cap == SpeedCap::Length || m.player.max_speed >= UNIT,
        m.obstacles[i].speed + m.player.max_speed <= 20 * UNIT,
    ensures
        m.stepped(wave, controls, dt).phase == Phase::GameOver,
        !m.stepped(wave, controls, dt).obstacles.contains(m.obstacles[i].drifted()),
{
    let after = m.stepped(wave, controls, dt);
    let player = m.player.updated(controls, m.config.speed_cap);
    let body = m.obstacles[i].drifted();
    let all = m.obstacles + placed_all(m.player.position, wave);
    let moved = drifted_all(all);
    assert(moved[i] == body);
    // how far each of the two moves in the frame
    let v = player.velocity;
    let top = m.player.max_speed as int;
    lemma_update_respects_max_speed(m.player, controls, m.config.speed_cap);
    lemma_coordinates_within_length(v, top);
    let speed = m.obstacles[i].speed as int;
    lemma_polar_bounds(speed, m.obstacles[i].rotation as int);
    // so they are no further apart than that along either axis
    let dx = span(player.position.x as int, body.position.x as int);
    let dy = span(player.position.y as int, body.position.y as int);
    let far: int = 20 * UNIT;
    assert(-far <= dx <= far && -far <= dy <= far);
    assert(dx * dx + dy * dy <= 2 * (far * far)) by (nonlinear_arith)
        requires
            -far <= dx <= far,
            -far <= dy <= far,
    ;
    assert(hits_player(player.position, body));
    assert(any_hit(player.position, moved));
    lemma_sweep_tests_every_obstacle(player.position, moved);
    if after.obstacles.contains(body) {
        let j = choose|j: int| 0 <= j < after.obstacles.len() && after.obstacles[j] == body;
        assert(hits_player(player.position, after.obstacles[j]));
    }
}

/// Neither coordinate of a vector is longer than the vector.
proof fn lemma_coordinates_within_length(v: Vec2, length: int)
    requires
        length >= 0,
        v.norm_sqr() <= length * length,
    ensures
        -length <= v.x <= length,
        -length <= v.y <= length,
{
    let x = v.x as int;
    let y = v.y as int;
    assert(-length <= x <= length && -length <= y <= length) by (nonlinear_arith)
        requires
            length >= 0,
            x * x + y * y <= length * length,
    ;
}

/// One game: the player, the obstacles, the particles and the clocks.
pub struct GameState {
    config: Config,
    phase: Phase,
    player: Player,
    obstacles: Vec<Obstacle>,
    particles: ParticleBuffer,
    timer: u64,
    spawner: Spawner,
}

impl View for GameState {
    type V = GameModel;

    /// The state as contracts see it; the camera looks at the player.
    closed spec fn view(&self) -> GameModel {
        GameModel {
            config: self.config,
            phase: self.phase,
            player: self.player,
            obstacles: self.obstacles@,
            particles: self.particles@,
            timer: self.timer,
            camera: self.player.position,
            spawner: self.spawner,
        }
    }
}

impl GameState {
    /// The invariant of a game's state: its particle buffer is in order
    /// and has the capacity that the game was set up with.
    pub closed spec fn wf(&self) -> bool {
        &&& self.particles.wf()
        &&& self.particles.limit() == self.config.particle_capacity
    }

    /// A state that meets the invariant is consistent.
    pub proof fn lemma_wf_is_consistent(&self)
        requires
            self.wf(),
        ensures
            self@.consistent(),
    {
    }

    /// A new game.
    pub fn new(config: Config) -> (game: GameState)
        ensures
            game.wf(),
            game@ == GameModel::initial(config),
    {
        GameState {
            config,
            phase: if config.menu {
                Phase::MainMenu
            } else {
                Phase::Playing
            },
            player: Player::new(PLAYER_THRUST, PLAYER_TURN_RATE, PLAYER_MAX_SPEED),
            obstacles: Vec::new(),
            particles: ParticleBuffer::new(config.particle_capacity),
            timer: 0,
            spawner: Spawner::new(),
        }
    }

    /// Starts the game anew and in play: a new player at the origin, no
    /// obstacle, no particle, the timer at zero and the first spawn as far
    /// off as in a new game.
    pub fn restart(&mut self)
        ensures
            final(self).wf(),
            final(self)@ == old(self)@.restarted(),
    {
        self.phase = Phase::Playing;
        self.player = Player::new(PLAYER_THRUST, PLAYER_TURN_RATE, PLAYER_MAX_SPEED);
        self.obstacles = Vec::new();
        self.particles = ParticleBuffer::new(self.config.particle_capacity);
        self.timer = 0;
        self.spawner = Spawner::new();
    }

    /// What the game was set up with.
    pub fn config(&self) -> (c: Config)
        ensures
            c == self@.config,
    {
        self.config
    }

    /// The mode the game is in.
    pub fn phase(&self) -> (p: Phase)
        ensures
            p == self@.phase,
    {
        self.phase
    }

    /// The player's ship.
    pub fn player(&self) -> (p: Player)
        ensures
            p == self@.player,
    {
        self.player
    }

    /// The obstacles, in the order in which they appeared.
    pub fn obstacles(&self) -> (o: &Vec<Obstacle>)
        ensures
            o@ == self@.obstacles,
    {
        &self.obstacles
    }

    /// The particles, oldest first.
    pub fn particles(&self) -> (p: &ParticleBuffer)
        ensures
            p@ == self@.particles,
            self.wf() ==> p.wf(),
            self.wf() ==> p.limit() == self@.config.particle_capacity,
    {
        &self.particles
    }

    /// The time survived in this game, in microseconds.
    pub fn timer(&self) -> (t: u64)
        ensures
            t == self@.timer,
    {
        self.timer
    }

    /// The whole seconds survived in this game.
    pub fn survival_seconds(&self) -> (t: u64)
        ensures
            t == self@.timer / 1000000,
    {
        self.timer / 1000000
    }

    /// The point the camera looks at: where the player is.
    pub fn camera(&self) -> (c: Vec2)
        ensures
            c == self@.camera,
            c == self@.player.position,
    {
        self.player.position
    }

    /// The countdown to the next spawn.
    pub fn spawner(&self) -> (s: Spawner)
        ensures
            s == self@.spawner,
    {
        self.spawner
    }

    /// Adds an obstacle behind those that are there.
    pub fn insert_obstacle(&mut self, body: Obstacle)
        requires
            old(self).wf(),
        ensures
            final(self).wf(),
            final(self)@ == (GameModel {
                obstacles: old(self)@.obstacles.push(body),
                ..old(self)@
            }),
    {
        self.obstacles.push(body);
    }

    /// Adds a particle; where the buffer is full, its oldest one makes room.
    pub fn emit(&mut self, p: Particle)
        requires
            old(self).wf(),
        ensures
            final(self).wf(),
            final(self)@ == (GameModel {
                particles: pushed(
                    old(self)@.particles,
                    old(self)@.config.particle_capacity as nat,
                    p,
                ),
                ..old(self)@
            }),
    {
        self.particles.push(p);
    }

    /// The number of obstacles that a frame of `dt` microseconds is to spawn.
    pub fn due_count(&self, dt: u32) -> (n: u64)
        ensures
            n == self@.due_wave_size(dt),
    {
        if self.phase == Phase::Playing && self.spawner.due(dt) {
            spawn_count(self.timer, self.config.spawn_scaling)
        } else {
            0
        }
    }

    /// Takes one simulation step in which the obstacles of `wave` appear.
    pub fn advance(&mut self, wave: &Vec<SpawnDraw>, controls: Controls, dt: u32)
        requires
            old(self).wf(),
            old(self)@.phase == Phase::Playing,
        ensures
            final(self).wf(),
            final(self)@ == old(self)@.stepped(wave@, controls, dt),
    {
        let _ = self.spawner.poll(dt);
        place_wave(self.player.position, wave, &mut self.obstacles);
        self.player.update(controls, self.config.speed_cap);
        drift_all(&mut self.obstacles);
        let hit: bool = sweep(self.player.position, &mut self.obstacles);
        self.phase = self.phase.next(false, hit);
        self.timer = if dt as u64 > u64::MAX - self.timer {
            u64::MAX
        } else {
            self.timer + dt as u64
        };
        self.particles.tick();
    }

    /// Takes one simulation step: draws the obstacles that are due and
    /// advances with them.
    pub fn step(&mut self, rng: &mut StdRng, controls: Controls, dt: u32)
        requires
            old(self).wf(),
            old(self)@.phase == Phase::Playing,
        ensures
            final(self).wf(),
            exists|wave: Seq<SpawnDraw>|
                is_wave_for(old(self)@, wave, dt) && final(self)@ == #[trigger] old(self)@
                    .stepped(wave, controls, dt),
    {
        let count: u64 = self.due_count(dt);
        let wave: Vec<SpawnDraw> = draw_wave(rng, count);
        self.advance(&wave, controls, dt);
        assert(is_wave_for(old(self)@, wave@, dt));
    }

    /// Takes one frame in which the obstacles of `wave` appear if it is a
    /// frame of play. Tells whether the game goes on.
    pub fn frame_with(&mut self, wave: &Vec<SpawnDraw>, input: FrameInput) -> (outcome: Outcome)
        requires
            old(self).wf(),
        ensures
            final(self).wf(),
            final(self)@ == after_frame(old(self)@, input, wave@),
            outcome == frame_outcome(old(self)@, input),
    {
        match self.phase {
            Phase::Playing => {
                self.advance(wave, input.controls, input.dt);
                Outcome::Continue
            },
            Phase::MainMenu => {
                self.phase = self.phase.next(is_clicked(input.pointer, play_button()), false);
                if is_clicked(input.pointer, quit_button()) {
                    Outcome::Quit
                } else {
                    Outcome::Continue
                }
            },
            Phase::GameOver => {
                if is_clicked(input.pointer, play_button()) {
                    self.restart();
                }
                if is_clicked(input.pointer, quit_button()) {
                    Outcome::Quit
                } else {
                    Outcome::Continue
                }
            },
        }
    }

    /// Takes one frame: in play a simulation step with the obstacles that
    /// are due, in a menu the answer to the pointer. Tells whether the game
    /// goes on.
    pub fn frame(&mut self, rng: &mut StdRng, input: FrameInput) -> (outcome: Outcome)
        requires
            old(self).wf(),
        ensures
            final(self).wf(),
            outcome == frame_outcome(old(self)@, input),
            exists|wave: Seq<SpawnDraw>|
                is_wave_for(old(self)@, wave, input.dt) && final(self)@ == #[trigger] after_frame(
                    old(self)@,
                    input,
                    wave,
                ),
    {
        let count: u64 = self.due_count(input.dt);
        let wave: Vec<SpawnDraw> = draw_wave(rng, count);
        let outcome: Outcome = self.frame_with(&wave, input);
        assert(is_wave_for(old(self)@, wave@, input.dt));
        outcome
    }
}

} // verus!
