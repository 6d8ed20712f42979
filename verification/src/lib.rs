//! Simulation core of a small 2D asteroid-avoider arcade game.
//!
//! A ship turns and thrusts under a speed cap, obstacles appear on a ring
//! around it and drift in straight lines, and the game is over when one of
//! them touches the ship. The crate holds the simulation only: a caller
//! reads the keys, the pointer and the clock, hands them to
//! [`game::GameState::frame`], and draws what the getters of the state show.
//!
//! Every quantity is an integer. Lengths, positions and speeds are counted in
//! sub-units of a world unit (`vector::UNIT` per unit), angles in whole
//! degrees and time in microseconds, so that each step of the simulation is
//! exact and its contract can say precisely what it computes.
//!
//! - [`vector`], [`isqrt`], [`sine_table`], [`trig`]: integer vectors,
//!   integer square roots, and sines and cosines of whole degrees.
//! - [`kinematics`], [`obstacle`]: how the ship and the obstacles move.
//! - [`collision`]: circles that touch, and the scan that removes the
//!   obstacles which hit the ship.
//! - [`particles`]: the bounded queue of short-lived effects.
//! - [`spawner`]: when, how many and where new obstacles appear.
//! - [`phase`], [`menu`], [`game`]: the phases, the buttons, and the state
//!   of a game with the step of one frame.

pub mod collision;
pub mod game;
pub mod isqrt;
pub mod kinematics;
pub mod menu;
pub mod obstacle;
pub mod particles;
pub mod phase;
pub mod sine_table;
pub mod spawner;
pub mod trig;
pub mod vector;
