//! The states of the game and the transitions between them.

use vstd::prelude::*;

verus! {

/// Where the game is: on the title screen, loading the world, spawning a
/// level, playing, showing a cleared level, or showing the end.
#[derive(Clone, Copy, Debug, Hash, PartialEq, Eq, Structural)]
pub enum GameState {
    Title,
    Load,
    Spawn,
    Play,
    LevelClear,
    Win,
}

impl Default for GameState {
    /// The game begins on the title screen.
    fn default() -> (s: GameState)
        ensures
            s == GameState::Title,
    {
        GameState::Title
    }
}

/// What can move the game from one state to another.
#[derive(Clone, Copy, Debug, PartialEq, Eq, Structural)]
pub enum GameEvent {
    /// The start key was pressed.
    StartPressed,
    /// The world's data finished loading.
    WorldLoaded,
    /// A frame went by.
    Tick,
    /// No star is left in the level.
    StarsCollected,
    /// The restart key was pressed.
    RestartPressed,
    /// The key for the next level was pressed; `last` tells whether the
    /// level just cleared was the last one.
    ContinuePressed { last: bool },
    /// A level was chosen by its number; `exists` tells whether there is
    /// such a level.
    LevelChosen { exists: bool },
}

/// The state that follows `state` on `event`. Choosing a level works from
/// every state; any other event that means nothing in a state leaves the
/// state as it is.
pub open spec fn next_state(state: GameState, event: GameEvent) -> GameState {
    match (state, event) {
        (_, GameEvent::LevelChosen { exists }) => if exists {
            GameState::Spawn
        } else {
            GameState::Win
        },
        (GameState::Title, GameEvent::StartPressed) => GameState::Load,
        (GameState::Load, GameEvent::WorldLoaded) => GameState::Spawn,
        (GameState::Spawn, GameEvent::Tick) => GameState::Play,
        (GameState::Play, GameEvent::StarsCollected) => GameState::LevelClear,
        (GameState::Play, GameEvent::RestartPressed) => GameState::Spawn,
        (GameState::LevelClear, GameEvent::RestartPressed) => GameState::Spawn,
        (GameState::LevelClear, GameEvent::ContinuePressed { last }) => if last {
            GameState::Win
        } else {
            GameState::Spawn
        },
        (GameState::Win, GameEvent::ContinuePressed { last: _ }) => GameState::Title,
        _ => state,
    }
}

impl GameState {
    /// Moves to the state that follows on `event`.
    pub fn on(self, event: GameEvent) -> (next: GameState)
        ensures
            next == next_state(self, event),
    {
        match (self, event) {
            (_, GameEvent::LevelChosen { exists }) => if exists {
                GameState::Spawn
            } else {
                GameState::Win
            },
            (GameState::Title, GameEvent::StartPressed) => GameState::Load,
            (GameState::Load, GameEvent::WorldLoaded) => GameState::Spawn,
            (GameState::Spawn, GameEvent::Tick) => GameState::Play,
            (GameState::Play, GameEvent::StarsCollected) => GameState::LevelClear,
            (GameState::Play, GameEvent::RestartPressed) => GameState::Spawn,
            (GameState::LevelClear, GameEvent::RestartPressed) => GameState::Spawn,
            (GameState::LevelClear, GameEvent::ContinuePressed { last }) => if last {
                GameState::Win
            } else {
                GameState::Spawn
            },
            (GameState::Win, GameEvent::ContinuePressed { last: _ }) => GameState::Title,
            _ => self,
        }
    }
}

} // verus!
