//! Level selection: which level follows a cleared one, and how much of a
//! level the camera shows.

use vstd::prelude::*;

verus! {

/// Where the game goes from a level.
#[derive(Clone, Copy, Debug, PartialEq, Eq, Structural)]
pub enum LevelStep {
    /// The level with this index is entered.
    Enter(usize),
    /// No such level exists: the game is won, and the selection goes back
    /// to the first level.
    Win,
}

/// The smallest side of the square that the camera shows.
pub const MIN_WINDOW_SIZE: i32 = 360;

/// The largest side of the square that the camera shows.
pub const MAX_WINDOW_SIZE: i32 = 960;

/// The step to the level with index `index`, among `count` levels.
pub open spec fn step_to(index: int, count: int) -> LevelStep {
    if 0 <= index < count {
        LevelStep::Enter(index as usize)
    } else {
        LevelStep::Win
    }
}

/// The step from a cleared level: the next level, or the end after the last.
pub fn move_to_next_level(current: usize, count: usize) -> (step: LevelStep)
    ensures
        step == step_to(current + 1, count as int),
{
    if current < count && current + 1 < count {
        LevelStep::Enter(current + 1)
    } else {
        LevelStep::Win
    }
}

/// The step to a level chosen by its index.
pub fn move_to_specific_level(index: usize, count: usize) -> (step: LevelStep)
    ensures
        step == step_to(index as int, count as int),
{
    if index < count {
        LevelStep::Enter(index)
    } else {
        LevelStep::Win
    }
}

impl LevelStep {
    /// The index that the level selection holds after the step.
    pub fn selection(self) -> (index: usize)
        ensures
            index == (match self {
                LevelStep::Enter(i) => i,
                LevelStep::Win => 0,
            }),
    {
        match self {
            LevelStep::Enter(i) => i,
            LevelStep::Win => 0,
        }
    }
}

/// The side of the square that the camera shows of a level of the given
/// size in pixels: the longer side of the level, but no less than 360 and
/// no more than 960.
pub fn camera_window_size(px_wid: i32, px_hei: i32) -> (side: i32)
    ensures
        360 <= side <= 960,
        side == (if px_wid <= 360 && px_hei <= 360 {
            360int
        } else if px_wid >= 960 || px_hei >= 960 {
            960int
        } else if px_wid >= px_hei {
            px_wid as int
        } else {
            px_hei as int
        }),
{
    let longer = if px_wid >= px_hei {
        px_wid
    } else {
        px_hei
    };
    if longer < MIN_WINDOW_SIZE {
        MIN_WINDOW_SIZE
    } else if longer > MAX_WINDOW_SIZE {
        MAX_WINDOW_SIZE
    } else {
        longer
    }
}

} // verus!
