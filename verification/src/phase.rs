//! The phases of the game and the arrows between them.

use vstd::prelude::*;

verus! {

/// The mode the game is in.
#[derive(Clone, Copy, Debug, PartialEq, Eq, Structural)]
pub enum Phase {
    MainMenu,
    Playing,
    GameOver,
}

/// What the caller is to do after a frame.
#[derive(Clone, Copy, Debug, PartialEq, Eq, Structural)]
pub enum Outcome {
    /// Go on with the next frame.
    Continue,
    /// Leave the game.
    Quit,
}

/// The phase after a frame in which the play button was or was not
/// clicked, and the player did or did not collide.
pub open spec fn next_phase(phase: Phase, play_clicked: bool, collided: bool) -> Phase {
    match phase {
        Phase::MainMenu => if play_clicked {
            Phase::Playing
        } else {
            Phase::MainMenu
        },
        Phase::Playing => if collided {
            Phase::GameOver
        } else {
            Phase::Playing
        },
        Phase::GameOver => if play_clicked {
            Phase::Playing
        } else {
            Phase::GameOver
        },
    }
}

impl Phase {
    /// The phase after a frame in which the play button was or was not
    /// clicked, and the player did or did not collide.
    pub fn next(self, play_clicked: bool, collided: bool) -> (phase: Phase)
        ensures
            phase == next_phase(self, play_clicked, collided),
    {
        match self {
            Phase::MainMenu => if play_clicked {
                Phase::Playing
            } else {
                Phase::MainMenu
            },
            Phase::Playing => if collided {
                Phase::GameOver
            } else {
                Phase::Playing
            },
            Phase::GameOver => if play_clicked {
                Phase::Playing
            } else {
                Phase::GameOver
            },
        }
    }
}

/// Whether the game may pass from `from` to `to` within one frame: it
/// stays, or it follows one of the three arrows menu to play, play to game
/// over, game over to play.
pub open spec fn may_follow(from: Phase, to: Phase) -> bool {
    ||| to == from
    ||| from == Phase::MainMenu && to == Phase::Playing
    ||| from == Phase::Playing && to == Phase::GameOver
    ||| from == Phase::GameOver && to == Phase::Playing
}

/// A frame moves the phase along at most one arrow: a click on play
/// changes nothing while playing, and a collision nothing in a menu.
pub proof fn lemma_one_arrow_per_frame(phase: Phase, play_clicked: bool, collided: bool)
    ensures
        may_follow(phase, next_phase(phase, play_clicked, collided)),
        phase == Phase::Playing ==> next_phase(phase, play_clicked, collided) == next_phase(
            phase,
            false,
            collided,
        ),
        phase != Phase::Playing ==> next_phase(phase, play_clicked, collided) == next_phase(
            phase,
            play_clicked,
            false,
        ),
{
}

} // verus!
