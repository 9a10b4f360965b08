use vstd::prelude::*;

verus! {

/// Whether the simulation is running: a play/pause gate that decides
/// if a tick performs a generation step. The simulation starts
/// paused.
#[derive(Clone, Copy, Debug, PartialEq, Eq, Structural)]
pub enum GameMode {
    Paused,
    Playing,
}

impl GameMode {
    /// The opposite mode.
    pub open spec fn toggled_spec(self) -> GameMode {
        match self {
            GameMode::Paused => GameMode::Playing,
            GameMode::Playing => GameMode::Paused,
        }
    }

    /// Switches between playing and paused.
    pub fn toggled(self) -> (m: GameMode)
        ensures
            m == self.toggled_spec(),
    {
        match self {
            GameMode::Paused => GameMode::Playing,
            GameMode::Playing => GameMode::Paused,
        }
    }

    /// Whether a tick in this mode performs a generation step.
    pub fn is_playing(self) -> (b: bool)
        ensures
            b == (self is Playing),
    {
        match self {
            GameMode::Paused => false,
            GameMode::Playing => true,
        }
    }
}

impl Default for GameMode {
    /// The simulation starts paused.
    fn default() -> (m: GameMode)
        ensures
            m == GameMode::Paused,
    {
        GameMode::Paused
    }
}

} // verus!
