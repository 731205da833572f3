//! What the buttons and keys of the menus do.

use vstd::prelude::*;
use crate::state::{AppState, HudState, SimulationState};

verus! {

/// Gray level of a button at rest, in thousandths of full white.
pub const NORMAL_BUTTON_COLOR: i64 = 150;

/// Gray level of a button under the pointer.
pub const HOVERED_BUTTON_COLOR: i64 = 250;

/// Gray level of a button that is pressed.
pub const PRESSED_BUTTON_COLOR: i64 = 350;

/// What the pointer does to a button.
#[derive(Clone, Copy, Debug, Default, PartialEq, Eq, Structural)]
pub enum Interaction {
    Pressed,
    Hovered,
    /// The pointer is elsewhere.
    #[default]
    Idle,
}

/// What a button answers to the pointer: its new gray level, and the states
/// and requests that a press sets off.
#[derive(Clone, Copy, Debug, PartialEq, Eq, Structural)]
pub struct Reaction {
    pub background: i64,
    pub app_state: Option<AppState>,
    pub simulation_state: Option<SimulationState>,
    pub hud_state: Option<HudState>,
    /// The program is to end.
    pub exit: bool,
    /// The current run is to start again from its first level.
    pub replay: bool,
}

/// The score of a finished run, for the panel that shows it.
#[derive(Clone, Copy, Debug, PartialEq, Eq, Structural)]
pub struct SpawnScoreMenuEvent {
    pub points: usize,
    /// Time played, in thousandths of a second.
    pub time: i64,
}

/// The gray level that shows an interaction.
pub open spec fn shade(interaction: Interaction) -> i64 {
    match interaction {
        Interaction::Pressed => PRESSED_BUTTON_COLOR,
        Interaction::Hovered => HOVERED_BUTTON_COLOR,
        Interaction::Idle => NORMAL_BUTTON_COLOR,
    }
}

/// The reaction of a button that only changes its gray level.
pub open spec fn plain(interaction: Interaction) -> Reaction {
    Reaction {
        background: shade(interaction),
        app_state: None,
        simulation_state: None,
        hud_state: None,
        exit: false,
        replay: false,
    }
}

fn repaint(interaction: Interaction) -> (r: Reaction)
    ensures
        r == plain(interaction),
{
    let background: i64 = match interaction {
        Interaction::Pressed => PRESSED_BUTTON_COLOR,
        Interaction::Hovered => HOVERED_BUTTON_COLOR,
        Interaction::Idle => NORMAL_BUTTON_COLOR,
    };
    Reaction {
        background,
        app_state: None,
        simulation_state: None,
        hud_state: None,
        exit: false,
        replay: false,
    }
}

fn is_pressed(interaction: Interaction) -> (r: bool)
    ensures
        r == (interaction == Interaction::Pressed),
{
    match interaction {
        Interaction::Pressed => true,
        _ => false,
    }
}

/// The play button: a press enters the game.
pub fn interact_with_play_button(interaction: Interaction) -> (r: Reaction)
    ensures
        r == (if interaction == Interaction::Pressed {
            Reaction { app_state: Some(AppState::Game), ..plain(interaction) }
        } else {
            plain(interaction)
        }),
{
    let mut r = repaint(interaction);
    if is_pressed(interaction) {
        r.app_state = Some(AppState::Game);
    }
    r
}

/// The exit button: a press ends the program.
pub fn interact_with_exit_button(interaction: Interaction) -> (r: Reaction)
    ensures
        r == (if interaction == Interaction::Pressed {
            Reaction { exit: true, ..plain(interaction) }
        } else {
            plain(interaction)
        }),
{
    let mut r = repaint(interaction);
    if is_pressed(interaction) {
        r.exit = true;
    }
    r
}

/// The button that leads back to the main menu from a panel over the game: a
/// press shows the main menu and takes the panel away.
pub fn interact_with_main_menu_button(interaction: Interaction) -> (r: Reaction)
    ensures
        r == (if interaction == Interaction::Pressed {
            Reaction {
                app_state: Some(AppState::MainMenu),
                hud_state: Some(HudState::Hidden),
                ..plain(interaction)
            }
        } else {
            plain(interaction)
        }),
{
    let mut r = repaint(interaction);
    if is_pressed(interaction) {
        r.app_state = Some(AppState::MainMenu);
        r.hud_state = Some(HudState::Hidden);
    }
    r
}

/// The resume button: a press lets the game's clock run and takes the panel
/// away.
pub fn interact_with_resume_button(interaction: Interaction) -> (r: Reaction)
    ensures
        r == (if interaction == Interaction::Pressed {
            Reaction {
                simulation_state: Some(SimulationState::Running),
                hud_state: Some(HudState::Hidden),
                ..plain(interaction)
            }
        } else {
            plain(interaction)
        }),
{
    let mut r = repaint(interaction);
    if is_pressed(interaction) {
        r.simulation_state = Some(SimulationState::Running);
        r.hud_state = Some(HudState::Hidden);
    }
    r
}

/// The back button of the level list: a press shows the main menu.
pub fn interact_with_back_button(interaction: Interaction) -> (r: Reaction)
    ensures
        r == (if interaction == Interaction::Pressed {
            Reaction { app_state: Some(AppState::MainMenu), ..plain(interaction) }
        } else {
            plain(interaction)
        }),
{
    let mut r = repaint(interaction);
    if is_pressed(interaction) {
        r.app_state = Some(AppState::MainMenu);
    }
    r
}

/// The replay button: a press starts the run again, lets the clock run and
/// takes the panel away.
pub fn interact_with_replay_button(interaction: Interaction) -> (r: Reaction)
    ensures
        r == (if interaction == Interaction::Pressed {
            Reaction {
                replay: true,
                simulation_state: Some(SimulationState::Running),
                hud_state: Some(HudState::Hidden),
                ..plain(interaction)
            }
        } else {
            plain(interaction)
        }),
{
    let mut r = repaint(interaction);
    if is_pressed(interaction) {
        r.replay = true;
        r.hud_state = Some(HudState::Hidden);
        r.simulation_state = Some(SimulationState::Running);
    }
    r
}

/// The escape key during play: it opens the pause panel when no panel
/// shows. Returns the panel to show, if the key changes it.
pub fn input_pause_game(escape_pressed: bool, hud: HudState) -> (next: Option<HudState>)
    ensures
        next == (if escape_pressed && hud == HudState::Hidden {
            Some(HudState::Pause)
        } else {
            None
        }),
{
    if escape_pressed && hud == HudState::Hidden {
        Some(HudState::Pause)
    } else {
        None
    }
}

/// The escape key during a pause: it closes the pause panel. Returns the
/// panel to show, if the key changes it.
pub fn input_resume_game(escape_pressed: bool, hud: HudState) -> (next: Option<HudState>)
    ensures
        next == (if escape_pressed && hud == HudState::Pause {
            Some(HudState::Hidden)
        } else {
            None
        }),
{
    if escape_pressed && hud == HudState::Pause {
        Some(HudState::Hidden)
    } else {
        None
    }
}

/// What showing the score panel takes: the score to show, with the clock
/// paused and the score panel chosen.
#[derive(Clone, Copy, Debug, PartialEq, Eq, Structural)]
pub struct ScoreMenu {
    pub shown: SpawnScoreMenuEvent,
    pub simulation_state: SimulationState,
    pub hud_state: HudState,
}

/// Answers the requests for the score panel that came in since the last
/// frame: the latest one is shown, and the clock stops.
pub fn handle_spawn_score_menu_event(events: &Vec<SpawnScoreMenuEvent>) -> (menu: Option<ScoreMenu>)
    ensures
        menu == (if events@.len() == 0 {
            None
        } else {
            Some(
                ScoreMenu {
                    shown: events@.last(),
                    simulation_state: SimulationState::Paused,
                    hud_state: HudState::Score,
                },
            )
        }),
{
    if events.len() == 0 {
        None
    } else {
        Some(
            ScoreMenu {
                shown: events[events.len() - 1],
                simulation_state: SimulationState::Paused,
                hud_state: HudState::Score,
            },
        )
    }
}

/// The state of the clock while the pause panel shows.
pub fn spawn_pause_menu() -> (simulation: SimulationState)
    ensures
        simulation == SimulationState::Paused,
{
    SimulationState::Paused
}

/// The state of the clock once the pause panel is gone.
pub fn despawn_pause_menu() -> (simulation: SimulationState)
    ensures
        simulation == SimulationState::Running,
{
    SimulationState::Running
}

/// The state of the clock when a game is entered.
pub fn start_running() -> (simulation: SimulationState)
    ensures
        simulation == SimulationState::Running,
{
    SimulationState::Running
}

} // verus!
