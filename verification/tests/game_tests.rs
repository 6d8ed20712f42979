use asteroid_avoider::collision::{collides, OBSTACLE_RADIUS, PLAYER_RADIUS};
use asteroid_avoider::game::{
    Config, FrameInput, GameState, PLAYER_MAX_SPEED, PLAYER_THRUST, PLAYER_TURN_RATE,
};
use asteroid_avoider::menu::{is_clicked, play_button, quit_button, Pointer, Rect};
use asteroid_avoider::phase::{Outcome, Phase};
use asteroid_avoider::kinematics::{Controls, Player, SpeedCap};
use asteroid_avoider::obstacle::Obstacle;
use asteroid_avoider::particles::Particle;
use asteroid_avoider::spawner::{place, SpawnDraw, SpawnScaling, Spawner};
use asteroid_avoider::vector::{Vec2, UNIT};
use rand::rngs::StdRng;
use rand::SeedableRng;

const IDLE: Controls = Controls { turn_left: false, turn_right: false, thrust: false };
const THRUST: Controls = Controls { turn_left: false, turn_right: false, thrust: true };
const NOWHERE: Pointer = Pointer { x: 0, y: 0, pressed: false };
const ON_PLAY: Pointer = Pointer { x: 150, y: 350, pressed: true };
const ON_QUIT: Pointer = Pointer { x: 400, y: 350, pressed: true };

fn in_play() -> Config {
    Config {
        menu: false,
        spawn_scaling: SpawnScaling::TimeRamped,
        speed_cap: SpeedCap::SquaredLength,
        particle_capacity: 4,
    }
}

fn with_menu() -> Config {
    Config { menu: true, ..in_play() }
}

fn input(controls: Controls, pointer: Pointer, dt: u32) -> FrameInput {
    FrameInput { controls, pointer, dt }
}

fn at_origin(speed: u32, rotation: i32) -> Obstacle {
    Obstacle { position: Vec2::new(0, 0), speed, rotation }
}

fn fresh_player() -> Player {
    Player::new(PLAYER_THRUST, PLAYER_TURN_RATE, PLAYER_MAX_SPEED)
}

/// A game that was played and lost: an obstacle sat on the player.
fn lost_game(config: Config) -> GameState {
    let mut game = GameState::new(Config { menu: false, ..config });
    let none: Vec<SpawnDraw> = Vec::new();
    for _ in 0..27 {
        game.advance(&none, THRUST, 100_000);
    }
    game.insert_obstacle(Obstacle { position: game.player().position, speed: 0, rotation: 0 });
    game.insert_obstacle(Obstacle { position: Vec2::new(900 * UNIT, 0), speed: 0, rotation: 0 });
    game.advance(&none, IDLE, 100_000);
    assert_eq!(game.phase(), Phase::GameOver);
    game
}

#[test]
fn player_constants() {
    assert_eq!(PLAYER_THRUST, 3277);
    assert_eq!(PLAYER_TURN_RATE, 2);
    assert_eq!(PLAYER_MAX_SPEED as i64, 2 * UNIT);
}

#[test]
fn default_config_is_the_full_game() {
    let c = Config::default();
    assert!(c.menu);
    assert_eq!(c.spawn_scaling, SpawnScaling::TimeRamped);
    assert_eq!(c.speed_cap, SpeedCap::SquaredLength);
    assert_eq!(c.particle_capacity, 64);
}

#[test]
fn phase_table() {
    assert_eq!(Phase::MainMenu.next(false, false), Phase::MainMenu);
    assert_eq!(Phase::MainMenu.next(true, false), Phase::Playing);
    assert_eq!(Phase::MainMenu.next(false, true), Phase::MainMenu);
    assert_eq!(Phase::MainMenu.next(true, true), Phase::Playing);
    assert_eq!(Phase::Playing.next(false, false), Phase::Playing);
    assert_eq!(Phase::Playing.next(true, false), Phase::Playing);
    assert_eq!(Phase::Playing.next(false, true), Phase::GameOver);
    assert_eq!(Phase::Playing.next(true, true), Phase::GameOver);
    assert_eq!(Phase::GameOver.next(false, false), Phase::GameOver);
    assert_eq!(Phase::GameOver.next(true, false), Phase::Playing);
    assert_eq!(Phase::GameOver.next(false, true), Phase::GameOver);
    assert_eq!(Phase::GameOver.next(true, true), Phase::Playing);
}

#[test]
fn rectangle_holds_its_left_and_upper_edge_only() {
    let r = Rect { x: 100, y: 310, width: 162, height: 90 };
    assert!(r.contains_point(100, 310));
    assert!(r.contains_point(261, 399));
    assert!(r.contains_point(180, 350));
    assert!(!r.contains_point(99, 350));
    assert!(!r.contains_point(262, 350));
    assert!(!r.contains_point(180, 309));
    assert!(!r.contains_point(180, 400));
}

#[test]
fn rectangle_at_the_ends_of_the_range() {
    let r = Rect { x: i32::MAX - 1, y: i32::MIN, width: i32::MAX, height: 1 };
    assert!(r.contains_point(i32::MAX, i32::MIN));
    assert!(r.contains_point(i32::MAX - 1, i32::MIN));
    assert!(!r.contains_point(i32::MAX - 2, i32::MIN));
    assert!(!r.contains_point(i32::MAX, i32::MIN + 1));
    let empty = Rect { x: 5, y: 5, width: 0, height: 10 };
    assert!(!empty.contains_point(5, 5));
    let inverted = Rect { x: 5, y: 5, width: -3, height: 10 };
    assert!(!inverted.contains_point(4, 6));
}

#[test]
fn the_two_buttons() {
    assert_eq!(play_button(), Rect { x: 100, y: 310, width: 162, height: 90 });
    assert_eq!(quit_button(), Rect { x: 378, y: 310, width: 162, height: 90 });
}

#[test]
fn a_click_needs_the_button_held_inside_the_rectangle() {
    assert!(is_clicked(ON_PLAY, play_button()));
    assert!(!is_clicked(ON_PLAY, quit_button()));
    assert!(is_clicked(ON_QUIT, quit_button()));
    assert!(!is_clicked(ON_QUIT, play_button()));
    assert!(!is_clicked(Pointer { pressed: false, ..ON_PLAY }, play_button()));
    assert!(!is_clicked(Pointer { x: 300, y: 350, pressed: true }, play_button()));
    assert!(!is_clicked(Pointer { x: 300, y: 350, pressed: true }, quit_button()));
}

#[test]
fn a_new_game_with_a_menu() {
    let game = GameState::new(with_menu());
    assert_eq!(game.phase(), Phase::MainMenu);
    assert_eq!(game.config(), with_menu());
    assert_eq!(game.player(), fresh_player());
    assert!(game.obstacles().is_empty());
    assert_eq!(game.particles().len(), 0);
    assert_eq!(game.particles().capacity(), 4);
    assert_eq!(game.timer(), 0);
    assert_eq!(game.survival_seconds(), 0);
    assert_eq!(game.camera(), Vec2::new(0, 0));
    assert_eq!(game.spawner(), Spawner { cooldown: 1_000_000 });
    assert_eq!(game.due_count(u32::MAX), 0);
}

#[test]
fn a_new_game_without_a_menu_is_in_play() {
    let game = GameState::new(in_play());
    assert_eq!(game.phase(), Phase::Playing);
    assert_eq!(game.player(), fresh_player());
    assert!(game.obstacles().is_empty());
    assert_eq!(game.timer(), 0);
}

#[test]
fn the_menu_waits_for_the_play_button() {
    let mut game = GameState::new(with_menu());
    let none: Vec<SpawnDraw> = Vec::new();
    for pointer in [
        NOWHERE,
        Pointer { pressed: false, ..ON_PLAY },
        Pointer { x: 300, y: 350, pressed: true },
    ] {
        let outcome = game.frame_with(&none, input(THRUST, pointer, 16_667));
        assert_eq!(outcome, Outcome::Continue);
        assert_eq!(game.phase(), Phase::MainMenu);
        assert_eq!(game.player(), fresh_player());
        assert_eq!(game.timer(), 0);
        assert_eq!(game.spawner(), Spawner { cooldown: 1_000_000 });
    }
}

#[test]
fn play_in_the_menu_starts_the_game_as_it_stands() {
    let mut game = GameState::new(with_menu());
    let wave = vec![SpawnDraw { bearing: 0, speed: 2, jitter: 0 }];
    let outcome = game.frame_with(&wave, input(THRUST, ON_PLAY, 16_667));
    assert_eq!(outcome, Outcome::Continue);
    assert_eq!(game.phase(), Phase::Playing);
    assert_eq!(game.player(), fresh_player());
    assert!(game.obstacles().is_empty());
    assert_eq!(game.timer(), 0);
    assert_eq!(game.camera(), Vec2::new(0, 0));
    assert_eq!(game.spawner(), Spawner { cooldown: 1_000_000 });
}

#[test]
fn quit_in_the_menu_leaves_the_game() {
    let mut game = GameState::new(with_menu());
    let none: Vec<SpawnDraw> = Vec::new();
    let outcome = game.frame_with(&none, input(IDLE, ON_QUIT, 16_667));
    assert_eq!(outcome, Outcome::Quit);
    assert_eq!(game.phase(), Phase::MainMenu);
}

#[test]
fn the_buttons_do_nothing_in_play() {
    let mut game = GameState::new(in_play());
    let none: Vec<SpawnDraw> = Vec::new();
    assert_eq!(game.frame_with(&none, input(IDLE, ON_QUIT, 1000)), Outcome::Continue);
    assert_eq!(game.phase(), Phase::Playing);
    assert_eq!(game.timer(), 1000);
    assert_eq!(game.frame_with(&none, input(IDLE, ON_PLAY, 1000)), Outcome::Continue);
    assert_eq!(game.phase(), Phase::Playing);
    assert_eq!(game.timer(), 2000);
}

#[test]
fn a_held_play_button_starts_the_game_and_then_plays() {
    let mut game = GameState::new(with_menu());
    let none: Vec<SpawnDraw> = Vec::new();
    game.frame_with(&none, input(THRUST, ON_PLAY, 16_667));
    assert_eq!(game.phase(), Phase::Playing);
    assert_eq!(game.timer(), 0);
    game.frame_with(&none, input(THRUST, ON_PLAY, 16_667));
    assert_eq!(game.phase(), Phase::Playing);
    assert_eq!(game.timer(), 16_667);
    assert_eq!(game.player().velocity, Vec2::new(3277, 0));
}

#[test]
fn a_step_moves_the_player_and_the_clocks() {
    let mut game = GameState::new(in_play());
    let none: Vec<SpawnDraw> = Vec::new();
    game.advance(&none, THRUST, 16_667);
    assert_eq!(game.phase(), Phase::Playing);
    assert_eq!(game.player().velocity, Vec2::new(3277, 0));
    assert_eq!(game.player().position, Vec2::new(3277, 0));
    assert!(game.player().boost);
    assert_eq!(game.camera(), Vec2::new(3277, 0));
    assert_eq!(game.timer(), 16_667);
    assert_eq!(game.spawner(), Spawner { cooldown: 1_000_000 - 16_667 });
    game.advance(&none, IDLE, 16_667);
    assert_eq!(game.player().position, Vec2::new(6554, 0));
    assert!(!game.player().boost);
    assert_eq!(game.camera(), Vec2::new(6554, 0));
    assert_eq!(game.timer(), 33_334);
}

#[test]
fn the_step_is_the_update_of_the_player() {
    let mut game = GameState::new(in_play());
    let mut alone = fresh_player();
    let none: Vec<SpawnDraw> = Vec::new();
    for i in 0..300 {
        let c = Controls { turn_left: i % 9 == 0, turn_right: i % 4 != 0, thrust: i % 5 != 0 };
        game.advance(&none, c, 16_667);
        alone.update(c, SpeedCap::SquaredLength);
        assert_eq!(game.player(), alone);
        assert_eq!(game.camera(), alone.position);
    }
    assert_eq!(game.timer(), 300 * 16_667);
    assert_eq!(game.survival_seconds(), 5);
}

#[test]
fn the_speed_cap_of_the_config_is_applied() {
    let mut squared = GameState::new(in_play());
    let mut linear = GameState::new(Config { speed_cap: SpeedCap::Length, ..in_play() });
    let none: Vec<SpawnDraw> = Vec::new();
    for _ in 0..29 {
        squared.advance(&none, THRUST, 1000);
        linear.advance(&none, THRUST, 1000);
    }
    assert_eq!(squared.player().velocity, Vec2::new(131072, 0));
    assert_eq!(linear.player().velocity, Vec2::new(95033, 0));
}

#[test]
fn an_obstacle_on_the_player_ends_the_game_in_the_first_step() {
    for (speed, rotation) in [(2 * 65536u32, 0), (3 * 65536, 77), (4 * 65536, 359), (0, 0)] {
        let mut game = GameState::new(in_play());
        assert_eq!(game.phase(), Phase::Playing);
        assert_eq!(game.player().position, Vec2::new(0, 0));
        game.insert_obstacle(at_origin(speed, rotation));
        assert_eq!(game.obstacles().len(), 1);
        let none: Vec<SpawnDraw> = Vec::new();
        game.advance(&none, IDLE, 16_667);
        assert_eq!(game.phase(), Phase::GameOver);
        assert!(game.obstacles().is_empty());
        assert_eq!(game.timer(), 16_667);
    }
}

#[test]
fn an_obstacle_on_a_moving_player_ends_the_game() {
    let none: Vec<SpawnDraw> = Vec::new();
    for rotation in [0, 45, 90, 180, 225, 270, 359] {
        for controls in [IDLE, THRUST] {
            let mut game = GameState::new(in_play());
            let turn = Controls { turn_left: false, turn_right: true, thrust: true };
            for _ in 0..60 {
                game.advance(&none, turn, 16_667);
            }
            assert_eq!(game.phase(), Phase::Playing);
            assert_eq!(game.player().velocity, Vec2::new(62815, 115038));
            assert_eq!(game.player().position, Vec2::new(4135126, 3320227));
            let far = Obstacle { position: Vec2::new(0, -900 * UNIT), speed: 0, rotation: 0 };
            let on_player =
                Obstacle { position: game.player().position, speed: 4 * 65536, rotation };
            game.insert_obstacle(far);
            game.insert_obstacle(on_player);
            game.advance(&none, controls, 16_667);
            assert_eq!(game.phase(), Phase::GameOver);
            assert_eq!(game.obstacles(), &vec![far]);
        }
    }
}

#[test]
fn an_obstacle_on_the_player_ends_the_game_through_frame() {
    let mut game = GameState::new(in_play());
    game.insert_obstacle(at_origin(2 * 65536, 180));
    let mut rng = StdRng::seed_from_u64(3);
    let outcome = game.frame(&mut rng, input(THRUST, NOWHERE, 16_667));
    assert_eq!(outcome, Outcome::Continue);
    assert_eq!(game.phase(), Phase::GameOver);
    assert!(game.obstacles().is_empty());
}

#[test]
fn collision_is_tested_after_the_move() {
    // 33 units away and 4 units per frame towards the player: 29 after the move
    let mut game = GameState::new(in_play());
    game.insert_obstacle(Obstacle {
        position: Vec2::new(33 * UNIT, 0),
        speed: 262144,
        rotation: 180,
    });
    let none: Vec<SpawnDraw> = Vec::new();
    game.advance(&none, IDLE, 16_667);
    assert_eq!(game.phase(), Phase::GameOver);
    assert!(game.obstacles().is_empty());
    // 29 units away and 4 units per frame away from the player: 33 after the move
    let mut game = GameState::new(in_play());
    game.insert_obstacle(Obstacle {
        position: Vec2::new(29 * UNIT, 0),
        speed: 262144,
        rotation: 0,
    });
    game.advance(&none, IDLE, 16_667);
    assert_eq!(game.phase(), Phase::Playing);
    assert_eq!(
        game.obstacles(),
        &vec![Obstacle { position: Vec2::new(33 * UNIT, 0), speed: 262144, rotation: 0 }]
    );
}

#[test]
fn only_the_obstacles_that_hit_are_removed() {
    let mut game = GameState::new(in_play());
    let far = Obstacle { position: Vec2::new(0, 300 * UNIT), speed: 65536, rotation: 90 };
    let other = Obstacle { position: Vec2::new(-300 * UNIT, 0), speed: 65536, rotation: 180 };
    game.insert_obstacle(far);
    game.insert_obstacle(at_origin(0, 0));
    game.insert_obstacle(at_origin(65536, 45));
    game.insert_obstacle(other);
    let none: Vec<SpawnDraw> = Vec::new();
    game.advance(&none, IDLE, 16_667);
    assert_eq!(game.phase(), Phase::GameOver);
    assert_eq!(
        game.obstacles(),
        &vec![
            Obstacle { position: Vec2::new(0, 301 * UNIT), ..far },
            Obstacle { position: Vec2::new(-301 * UNIT, 0), ..other },
        ]
    );
}

#[test]
fn game_over_waits_for_a_button() {
    let mut game = lost_game(in_play());
    let player = game.player();
    let timer = game.timer();
    let obstacles = game.obstacles().clone();
    let spawner = game.spawner();
    let wave = vec![SpawnDraw { bearing: 0, speed: 2, jitter: 0 }];
    for pointer in [NOWHERE, Pointer { pressed: false, ..ON_PLAY }] {
        let outcome = game.frame_with(&wave, input(THRUST, pointer, 16_667));
        assert_eq!(outcome, Outcome::Continue);
        assert_eq!(game.phase(), Phase::GameOver);
        assert_eq!(game.player(), player);
        assert_eq!(game.timer(), timer);
        assert_eq!(game.obstacles(), &obstacles);
        assert_eq!(game.spawner(), spawner);
    }
    assert_eq!(obstacles.len(), 1);
    assert_eq!(timer, 2_800_000);
}

#[test]
fn quit_after_a_game_leaves_the_game() {
    let mut game = lost_game(in_play());
    let none: Vec<SpawnDraw> = Vec::new();
    assert_eq!(game.frame_with(&none, input(IDLE, ON_QUIT, 16_667)), Outcome::Quit);
    assert_eq!(game.phase(), Phase::GameOver);
    let mut rng = StdRng::seed_from_u64(3);
    assert_eq!(game.frame(&mut rng, input(IDLE, ON_QUIT, 16_667)), Outcome::Quit);
}

#[test]
fn restart_after_a_game_resets_it() {
    for config in [in_play(), with_menu()] {
        let mut game = lost_game(config);
        assert!(game.timer() > 0);
        assert!(!game.obstacles().is_empty());
        assert_ne!(game.player(), fresh_player());
        game.emit(spark(5));
        let none: Vec<SpawnDraw> = Vec::new();
        let outcome = game.frame_with(&none, input(IDLE, ON_PLAY, 16_667));
        assert_eq!(outcome, Outcome::Continue);
        assert_eq!(game.phase(), Phase::Playing);
        assert_eq!(game.timer(), 0);
        assert!(game.obstacles().is_empty());
        assert_eq!(game.player(), fresh_player());
        assert_eq!(game.camera(), Vec2::new(0, 0));
        assert_eq!(game.spawner(), Spawner { cooldown: 1_000_000 });
        assert_eq!(game.particles().len(), 0);
        assert_eq!(game.particles().capacity(), 4);
        assert_eq!(game.config().speed_cap, SpeedCap::SquaredLength);
    }
}

#[test]
fn restart_resets_from_any_phase() {
    let mut game = GameState::new(with_menu());
    game.restart();
    assert_eq!(game.phase(), Phase::Playing);
    assert_eq!(game.config(), with_menu());
    let mut game = lost_game(in_play());
    game.restart();
    assert_eq!(game.phase(), Phase::Playing);
    assert_eq!(game.timer(), 0);
    assert!(game.obstacles().is_empty());
    assert_eq!(game.player(), fresh_player());
    assert_eq!(game.spawner(), Spawner { cooldown: 1_000_000 });
}

#[test]
fn a_restart_through_frame() {
    let mut game = lost_game(in_play());
    let mut rng = StdRng::seed_from_u64(11);
    assert_eq!(game.frame(&mut rng, input(IDLE, ON_PLAY, 16_667)), Outcome::Continue);
    assert_eq!(game.phase(), Phase::Playing);
    assert_eq!(game.timer(), 0);
    assert!(game.obstacles().is_empty());
}

#[test]
fn new_obstacles_appear_before_the_move() {
    let mut game = GameState::new(in_play());
    let none: Vec<SpawnDraw> = Vec::new();
    for _ in 0..5 {
        game.advance(&none, THRUST, 16_667);
    }
    let before = game.player().position;
    let draw = SpawnDraw { bearing: 90, speed: 3, jitter: -10 };
    game.advance(&vec![draw], THRUST, 16_667);
    let mut expected = place(before, draw);
    assert_eq!(expected.position, Vec2::new(before.x, before.y + 400 * UNIT));
    expected.update();
    assert_eq!(game.obstacles(), &vec![expected]);
    assert_ne!(game.player().position, before);
}

#[test]
fn a_wave_is_appended_in_its_order() {
    let mut game = GameState::new(in_play());
    let old = Obstacle { position: Vec2::new(0, -500 * UNIT), speed: 0, rotation: 0 };
    game.insert_obstacle(old);
    let wave = vec![
        SpawnDraw { bearing: 0, speed: 2, jitter: 0 },
        SpawnDraw { bearing: 120, speed: 3, jitter: 5 },
        SpawnDraw { bearing: 240, speed: 4, jitter: -5 },
    ];
    game.advance(&wave, IDLE, 16_667);
    let mut expected = vec![old];
    for draw in &wave {
        let mut body = place(Vec2::new(0, 0), *draw);
        body.update();
        expected.push(body);
    }
    assert_eq!(game.obstacles(), &expected);
}

#[test]
fn due_count_follows_the_countdown_and_the_timer() {
    let mut game = GameState::new(in_play());
    let none: Vec<SpawnDraw> = Vec::new();
    for _ in 0..9 {
        assert_eq!(game.due_count(100_000), 0);
        game.advance(&none, IDLE, 100_000);
    }
    assert_eq!(game.timer(), 900_000);
    assert_eq!(game.spawner(), Spawner { cooldown: 100_000 });
    // the frame that uses the countdown up brings the spawn
    assert_eq!(game.due_count(99_999), 0);
    assert_eq!(game.due_count(100_000), 1);
    assert_eq!(game.due_count(u32::MAX), 1);
    game.advance(&none, IDLE, 100_000);
    assert_eq!(game.spawner(), Spawner { cooldown: 500_000 });
    assert_eq!(game.due_count(100_000), 0);
    assert_eq!(game.due_count(500_000), 1);
    // ten seconds on, a wave is two obstacles
    game.advance(&none, IDLE, 9_000_000);
    assert_eq!(game.timer(), 10_000_000);
    assert_eq!(game.spawner(), Spawner { cooldown: 500_000 });
    assert_eq!(game.due_count(499_999), 0);
    assert_eq!(game.due_count(500_000), 2);
}

#[test]
fn the_wave_goes_by_the_timer_before_the_frame() {
    let mut game = GameState::new(in_play());
    let none: Vec<SpawnDraw> = Vec::new();
    game.advance(&none, IDLE, 9_999_999);
    assert_eq!(game.timer(), 9_999_999);
    assert_eq!(game.spawner(), Spawner { cooldown: 500_000 });
    // the frame ends after ten seconds, but begins before them
    assert_eq!(game.due_count(600_000), 1);
    game.advance(&none, IDLE, 1);
    assert_eq!(game.due_count(600_000), 2);
}

#[test]
fn due_count_of_a_fixed_wave() {
    let mut game = GameState::new(Config { spawn_scaling: SpawnScaling::Fixed, ..in_play() });
    let none: Vec<SpawnDraw> = Vec::new();
    game.advance(&none, IDLE, 60_000_000);
    assert_eq!(game.spawner(), Spawner { cooldown: 500_000 });
    assert_eq!(game.due_count(500_000), 1);
    assert_eq!(game.due_count(499_999), 0);
}

#[test]
fn nothing_is_due_outside_play() {
    let mut game = GameState::new(with_menu());
    assert_eq!(game.due_count(u32::MAX), 0);
    let game_over = lost_game(in_play());
    assert_eq!(game_over.spawner(), Spawner { cooldown: 200_000 });
    assert!(game_over.spawner().due(200_000));
    assert_eq!(game_over.due_count(200_000), 0);
    let mut rng = StdRng::seed_from_u64(1);
    for _ in 0..100 {
        game.frame(&mut rng, input(THRUST, NOWHERE, 100_000));
    }
    assert!(game.obstacles().is_empty());
    assert_eq!(game.timer(), 0);
    assert_eq!(game.spawner(), Spawner { cooldown: 1_000_000 });
}

#[test]
fn a_spawn_falls_in_the_frame_in_which_the_countdown_runs_out() {
    let mut game = GameState::new(in_play());
    let mut rng = StdRng::seed_from_u64(8);
    // 0.96 s of the first second are gone
    game.step(&mut rng, IDLE, 960_000);
    assert!(game.obstacles().is_empty());
    assert_eq!(game.spawner(), Spawner { cooldown: 40_000 });
    // the next frame takes longer than what is left
    game.step(&mut rng, IDLE, 50_000);
    assert_eq!(game.obstacles().len(), 1);
    assert_eq!(game.spawner(), Spawner { cooldown: 500_000 });
    assert_eq!(game.timer(), 1_010_000);
}

#[test]
fn steps_with_the_generator_spawn_on_the_ring() {
    let mut game = GameState::new(in_play());
    let mut rng = StdRng::seed_from_u64(42);
    let mut total = 0;
    for frame in 1..=40 {
        let count = game.due_count(100_000) as usize;
        let before = game.obstacles().len();
        let player = game.player().position;
        game.step(&mut rng, IDLE, 100_000);
        if game.phase() == Phase::GameOver {
            break;
        }
        assert_eq!(game.obstacles().len(), before + count);
        if frame % 5 == 0 && frame >= 10 {
            assert_eq!(count, 1);
        } else {
            assert_eq!(count, 0);
        }
        for body in &game.obstacles()[before..] {
            // placed at 400 units, then moved by at most 4
            let dx = (body.position.x - player.x) as f64 / 65536.0;
            let dy = (body.position.y - player.y) as f64 / 65536.0;
            let distance = (dx * dx + dy * dy).sqrt();
            assert!(distance > 395.9 && distance < 404.1);
            assert!(body.speed >= 2 * 65536 && body.speed <= 4 * 65536);
            assert_eq!(body.speed % 65536, 0);
            assert!(body.rotation > -20 && body.rotation < 380);
        }
        total += count;
    }
    assert_eq!(total, 7);
}

#[test]
fn a_long_game_with_the_generator_keeps_its_invariants() {
    let mut rng = StdRng::seed_from_u64(2025);
    let mut game = GameState::new(with_menu());
    let mut games_lost = 0;
    let mut last_timer = 0;
    for i in 0..20_000u32 {
        let phase = game.phase();
        let pointer = if phase == Phase::Playing { NOWHERE } else { ON_PLAY };
        let c = Controls { turn_left: i % 13 < 3, turn_right: i % 17 < 5, thrust: i % 3 != 0 };
        let outcome = game.frame(&mut rng, input(c, pointer, 16_667));
        assert_eq!(outcome, Outcome::Continue);
        assert_eq!(game.camera(), game.player().position);
        assert!(game.particles().len() <= 4);
        assert!(game.player().velocity.length_sqr() <= 131072u128 * 131072);
        for body in game.obstacles() {
            let player = game.player().position;
            assert!(!collides(player, PLAYER_RADIUS, body.position, OBSTACLE_RADIUS));
        }
        match (phase, game.phase()) {
            (Phase::MainMenu, Phase::Playing) => assert_eq!(game.timer(), 0),
            (Phase::Playing, Phase::Playing) => assert_eq!(game.timer(), last_timer + 16_667),
            (Phase::Playing, Phase::GameOver) => {
                games_lost += 1;
                assert_eq!(game.timer(), last_timer + 16_667);
            }
            (Phase::GameOver, Phase::Playing) => {
                assert_eq!(game.timer(), 0);
                assert!(game.obstacles().is_empty());
            }
            (from, to) => panic!("the game went from {:?} to {:?}", from, to),
        }
        last_timer = game.timer();
    }
    assert!(games_lost > 0);
}

fn spark(lifetime: i32) -> Particle {
    Particle { position: Vec2::new(1, 2), rotation: 3, scale: 65536, color: 9, lifetime }
}

#[test]
fn particles_age_with_the_steps_of_play() {
    let mut game = GameState::new(with_menu());
    let none: Vec<SpawnDraw> = Vec::new();
    game.emit(spark(2));
    game.emit(spark(3));
    // a frame in the menu ages nothing
    game.frame_with(&none, input(IDLE, NOWHERE, 16_667));
    assert_eq!(game.particles().get(0), Some(spark(2)));
    game.frame_with(&none, input(IDLE, ON_PLAY, 16_667));
    assert_eq!(game.particles().get(0), Some(spark(2)));
    game.frame_with(&none, input(IDLE, NOWHERE, 16_667));
    assert_eq!(game.particles().get(0), Some(spark(1)));
    assert_eq!(game.particles().get(1), Some(spark(2)));
    game.frame_with(&none, input(IDLE, NOWHERE, 16_667));
    assert_eq!(game.particles().len(), 1);
    assert_eq!(game.particles().get(0), Some(spark(1)));
    game.frame_with(&none, input(IDLE, NOWHERE, 16_667));
    assert_eq!(game.particles().len(), 0);
}

#[test]
fn emit_evicts_the_oldest_particle() {
    let mut game = GameState::new(in_play());
    for lifetime in 10..16 {
        game.emit(spark(lifetime));
    }
    assert_eq!(game.particles().len(), 4);
    assert_eq!(game.particles().get(0), Some(spark(12)));
    assert_eq!(game.particles().get(3), Some(spark(15)));
}

#[test]
fn a_game_without_particles() {
    let mut game = GameState::new(Config { particle_capacity: 0, ..in_play() });
    game.emit(spark(10));
    assert_eq!(game.particles().len(), 0);
    let none: Vec<SpawnDraw> = Vec::new();
    game.advance(&none, IDLE, 16_667);
    assert_eq!(game.particles().len(), 0);
}

#[test]
fn the_timer_counts_whole_seconds() {
    let mut game = GameState::new(in_play());
    let none: Vec<SpawnDraw> = Vec::new();
    game.advance(&none, IDLE, 999_999);
    assert_eq!(game.survival_seconds(), 0);
    game.advance(&none, IDLE, 1);
    assert_eq!(game.survival_seconds(), 1);
    game.advance(&none, IDLE, u32::MAX);
    assert_eq!(game.timer(), 1_000_000 + u32::MAX as u64);
    assert_eq!(game.survival_seconds(), 4295);
}

#[test]
fn insert_obstacle_appends() {
    let mut game = GameState::new(with_menu());
    let a = at_origin(1, 1);
    let b = Obstacle { position: Vec2::new(5, 5), speed: 2, rotation: 2 };
    game.insert_obstacle(a);
    game.insert_obstacle(b);
    assert_eq!(game.obstacles(), &vec![a, b]);
    assert_eq!(game.phase(), Phase::MainMenu);
}
