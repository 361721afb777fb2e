//! The game's course from loading through play to the win screen, and the
//! per-frame decisions around the player: reaching the end of the level, where
//! the camera goes, and which animation frame shows.
use vstd::prelude::*;
use crate::motion::Velocity;

verus! {

/// The stage the game is in.
#[derive(Clone, Copy, Debug, PartialEq, Eq, Structural)]
pub enum GameState {
    Loading,
    Playing,
    Win,
}

/// What can move the game on to its next stage.
#[derive(Clone, Copy, Debug, PartialEq, Eq, Structural)]
pub enum GameEvent {
    /// Every asset has loaded and the minimum loading time is over.
    AssetsLoaded,
    /// The player has passed the end of the level.
    ReachedEnd,
}

/// Position of a stage in the game's course.
pub open spec fn rank(s: GameState) -> int {
    match s {
        GameState::Loading => 0,
        GameState::Playing => 1,
        GameState::Win => 2,
    }
}

/// Loading ends when the assets are in, play ends when the player reaches
/// the end; any other event leaves the stage as it is.
pub open spec fn next_state_of(s: GameState, e: GameEvent) -> GameState {
    match (s, e) {
        (GameState::Loading, GameEvent::AssetsLoaded) => GameState::Playing,
        (GameState::Playing, GameEvent::ReachedEnd) => GameState::Win,
        _ => s,
    }
}

/// The stage after event `event` in stage `state`.
pub fn next_state(state: GameState, event: GameEvent) -> (r: GameState)
    ensures
        r == next_state_of(state, event),
{
    match (state, event) {
        (GameState::Loading, GameEvent::AssetsLoaded) => GameState::Playing,
        (GameState::Playing, GameEvent::ReachedEnd) => GameState::Win,
        _ => state,
    }
}

/// The game only moves forward, one stage at a time.
pub proof fn lemma_forward_only(s: GameState, e: GameEvent)
    ensures
        rank(s) <= rank(next_state_of(s, e)) <= rank(s) + 1,
        next_state_of(s, e) != s ==> rank(next_state_of(s, e)) == rank(s) + 1,
{
}

/// Whether an entity at `x` has passed the end of the level at `end_x`.
pub fn reached_end(x: i64, end_x: i64) -> (r: bool)
    ensures
        r == (x > end_x),
{
    x > end_x
}

/// `x` brought into `[lo, hi]`.
pub open spec fn clamp_of(x: int, lo: int, hi: int) -> int {
    if x < lo {
        lo
    } else if x > hi {
        hi
    } else {
        x
    }
}

/// Camera position that follows the player at `player_x` without showing
/// anything left of `lo` or right of `hi`.
pub fn camera_x(player_x: i64, lo: i64, hi: i64) -> (r: i64)
    requires
        lo <= hi,
    ensures
        r == clamp_of(player_x as int, lo as int, hi as int),
        lo <= r <= hi,
{
    if player_x < lo {
        lo
    } else if player_x > hi {
        hi
    } else {
        player_x
    }
}

impl Velocity {
    /// Whether the velocity is not zero.
    pub fn is_moving(&self) -> (r: bool)
        ensures
            r == (self.0.x != 0 || self.0.y != 0),
    {
        self.0.x != 0 || self.0.y != 0
    }
}

/// Number of frames in a sprite's walking animation.
#[derive(Clone, Copy, Debug, PartialEq, Eq, Structural)]
pub struct AnimationFrameCount(pub usize);

impl AnimationFrameCount {
    /// The frame after `index`, going back to the first after the last.
    pub fn next_index(&self, index: usize) -> (r: usize)
        requires
            self.0 > 0,
        ensures
            r == (index as int + 1) % (self.0 as int),
            r < self.0,
    {
        if index >= self.0 - 1 {
            proof {
                vstd::arithmetic::div_mod::lemma_mod_sub_multiples_vanish(index as int + 1, self.0 as int);
            }
            let r = (index - (self.0 - 1)) % self.0;
            assert(-(self.0 as int) + (index as int + 1) == (index - (self.0 - 1)) as int);
            r
        } else {
            proof {
                vstd::arithmetic::div_mod::lemma_small_mod((index + 1) as nat, self.0 as nat);
            }
            index + 1
        }
    }

    /// The frame to show after a frame of `velocity` in which the animation
    /// timer did or did not fire: the animation runs only while moving.
    pub fn animate(&self, index: usize, velocity: &Velocity, timer_fired: bool) -> (r: usize)
        requires
            self.0 > 0,
        ensures
            r == if (velocity.0.x != 0 || velocity.0.y != 0) && timer_fired {
                (index as int + 1) % (self.0 as int)
            } else {
                index as int
            },
    {
        if velocity.is_moving() && timer_fired {
            self.next_index(index)
        } else {
            index
        }
    }
}

} // verus!
