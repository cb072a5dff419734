//! The rules of the player: how large a player of a level is, how it moves
//! and jumps, and how often the players of a level may still split.

use crate::sensor::GroundDetection;
use vstd::prelude::*;

verus! {

/// Horizontal speed of a walking player.
pub const PLAYER_VELOCITY: i32 = 120;

/// Upward speed at the start of a jump.
pub const PLAYER_JUMP_VELOCITY: i32 = 300;

/// The highest level that has a collider size and a sprite of its own.
pub const LAST_SIZED_LEVEL: u8 = 5;

/// A player; each split raises its level by one and makes it smaller.
#[derive(Clone, Copy, Debug, PartialEq, Eq, Structural)]
pub struct Player {
    pub level: u8,
}

impl Default for Player {
    /// A player starts at level 0.
    fn default() -> (p: Player)
        ensures
            p.level == 0,
    {
        Player { level: 0 }
    }
}

/// Half the side of the square collider of a player of the given level.
pub open spec fn collider_size_of(level: int) -> int {
    if level == 0 {
        16
    } else if level == 1 {
        13
    } else if level == 2 {
        10
    } else if level == 3 {
        7
    } else if level == 4 {
        5
    } else {
        3
    }
}

/// Half the side of the square collider of a player of the given level;
/// from level 5 on the size stays the same.
pub fn convert_player_level_to_collider_size(level: u8) -> (size: u8)
    ensures
        size == collider_size_of(level as int),
{
    match level {
        0 => 16,
        1 => 13,
        2 => 10,
        3 => 7,
        4 => 5,
        _ => 3,
    }
}

impl Player {
    /// The player that each half of a split becomes: one level higher.
    /// There is none above the highest level.
    pub fn split(&self) -> (next: Option<Player>)
        ensures
            next.is_some() <==> self.level < u8::MAX,
            next matches Some(p) ==> p.level == self.level + 1,
    {
        match self.level.checked_add(1) {
            Some(level) => Some(Player { level }),
            None => None,
        }
    }

    /// Half the side of the player's collider.
    pub fn collider_size(&self) -> (size: u8)
        ensures
            size == collider_size_of(self.level as int),
    {
        convert_player_level_to_collider_size(self.level)
    }

    /// The sprite of the player in its sheet: one per level up to level 5.
    pub fn sprite_index(&self) -> (index: usize)
        ensures
            index == (if self.level <= 5 {
                self.level as int
            } else {
                5
            }),
    {
        if self.level <= LAST_SIZED_LEVEL {
            self.level as usize
        } else {
            LAST_SIZED_LEVEL as usize
        }
    }
}

/// The horizontal speed for the pressed direction keys: right minus left.
pub fn horizontal_velocity(left: bool, right: bool) -> (v: i32)
    ensures
        v == ((if right {
            1int
        } else {
            0int
        }) - (if left {
            1int
        } else {
            0int
        })) * 120,
{
    let r: i32 = if right {
        1
    } else {
        0
    };
    let l: i32 = if left {
        1
    } else {
        0
    };
    (r - l) * PLAYER_VELOCITY
}

/// The upward speed that a press of the jump key gives: a player jumps only
/// from the ground.
pub fn jump_velocity(jump_pressed: bool, ground: &GroundDetection) -> (v: Option<i32>)
    ensures
        v.is_some() <==> (jump_pressed && ground.on_ground),
        v matches Some(up) ==> up == 300,
{
    if jump_pressed && ground.on_ground {
        Some(PLAYER_JUMP_VELOCITY)
    } else {
        None
    }
}

/// The velocity with which one half of a split player leaves: sideways at
/// walking speed, upwards at two thirds of a jump.
pub fn split_velocity(to_the_right: bool) -> (v: (i32, i32))
    ensures
        v.0 == (if to_the_right {
            120int
        } else {
            -120int
        }),
        v.1 == 200,
{
    let x: i32 = if to_the_right {
        PLAYER_VELOCITY
    } else {
        -PLAYER_VELOCITY
    };
    (x, PLAYER_JUMP_VELOCITY * 2 / 3)
}

/// The number of players that a level allows, and the number there is.
#[derive(Clone, Copy, Debug)]
pub struct MaximumSplit {
    max: i32,
    current: i32,
}

/// The mathematical picture of a split budget.
pub struct SplitView {
    pub max: int,
    pub current: int,
}

impl SplitView {
    /// Doubling the players stays within the level's limit.
    pub open spec fn allows_split(self) -> bool {
        self.current * 2 <= self.max
    }
}

/// The limit of a level that names none.
pub const DEFAULT_MAX_SPLIT: i32 = 8;

impl View for MaximumSplit {
    type V = SplitView;

    closed spec fn view(&self) -> SplitView {
        SplitView { max: self.max as int, current: self.current as int }
    }
}

impl MaximumSplit {
    /// The count of players is never negative.
    #[verifier::type_invariant]
    spec fn counted(self) -> bool {
        0 <= self.current
    }

    /// The budget of a level: its own limit, or 8 when the level names
    /// none, and the number of players in it (at most `i32::MAX` are counted).
    pub fn new(max_split: Option<i32>, players: usize) -> (m: MaximumSplit)
        ensures
            m@.max == (match max_split {
                Some(limit) => limit as int,
                None => 8,
            }),
            m@.current == (if players <= i32::MAX {
                players as int
            } else {
                i32::MAX as int
            }),
    {
        let max = match max_split {
            Some(limit) => limit,
            None => DEFAULT_MAX_SPLIT,
        };
        let current: i32 = if players <= i32::MAX as usize {
            players as i32
        } else {
            i32::MAX
        };
        MaximumSplit { max, current }
    }

    /// The most players the level allows.
    pub fn max(&self) -> (v: i32)
        ensures
            v == self@.max,
    {
        self.max
    }

    /// The number of players there is.
    pub fn current(&self) -> (v: i32)
        ensures
            v == self@.current,
            v >= 0,
    {
        proof {
            use_type_invariant(self);
        }
        self.current
    }

    /// Whether every player may split into two.
    pub fn can_split(&self) -> (b: bool)
        ensures
            b == self@.allows_split(),
    {
        (self.current as i64) * 2 <= self.max as i64
    }

    /// Splits every player into two if the level's limit allows it: the
    /// count doubles. Otherwise nothing changes. Returns whether the players
    /// split.
    pub fn split_into_two(&mut self) -> (split: bool)
        ensures
            final(self)@.max == old(self)@.max,
            split == old(self)@.allows_split(),
            final(self)@.current == (if split {
                old(self)@.current * 2
            } else {
                old(self)@.current
            }),
    {
        proof {
            use_type_invariant(&*self);
        }
        if self.can_split() {
            self.current = self.current * 2;
            true
        } else {
            false
        }
    }
}

} // verus!
