//! The states that decide which rules run.

use vstd::prelude::*;

verus! {

/// Which screen the program shows.
#[derive(Clone, Copy, Debug, Default, Hash, PartialEq, Eq, Structural)]
pub enum AppState {
    #[default]
    MainMenu,
    Levels,
    Game,
}

/// Whether the game's clock runs.
#[derive(Clone, Copy, Debug, Default, Hash, PartialEq, Eq, Structural)]
pub enum SimulationState {
    #[default]
    Running,
    Paused,
}

/// Which panel lies over the game.
#[derive(Clone, Copy, Debug, Default, Hash, PartialEq, Eq, Structural)]
pub enum HudState {
    /// No panel.
    #[default]
    Hidden,
    Pause,
    Score,
}

/// Whether the rules of the game run: inside a game whose clock is not
/// paused.
pub open spec fn playing(app: AppState, simulation: SimulationState) -> bool {
    app == AppState::Game && simulation == SimulationState::Running
}

/// Tells whether the rules of the game run in the given states.
pub fn is_playing(app: AppState, simulation: SimulationState) -> (r: bool)
    ensures
        r == playing(app, simulation),
{
    app == AppState::Game && simulation == SimulationState::Running
}

} // verus!
