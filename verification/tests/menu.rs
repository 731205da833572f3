use moving_square::hud::{time_label, update_score_label};
use moving_square::menu::{
    despawn_pause_menu, handle_spawn_score_menu_event, input_pause_game, input_resume_game,
    interact_with_back_button, interact_with_exit_button, interact_with_main_menu_button,
    interact_with_play_button, interact_with_replay_button, interact_with_resume_button,
    spawn_pause_menu, start_running, Interaction, Reaction, ScoreMenu, SpawnScoreMenuEvent,
    HOVERED_BUTTON_COLOR, NORMAL_BUTTON_COLOR, PRESSED_BUTTON_COLOR,
};
use moving_square::objects::Score;
use moving_square::state::{is_playing, AppState, HudState, SimulationState};

fn painted(background: i64) -> Reaction {
    Reaction {
        background,
        app_state: None,
        simulation_state: None,
        hud_state: None,
        exit: false,
        replay: false,
    }
}

#[test]
fn gray_levels_of_buttons() {
    assert_eq!(NORMAL_BUTTON_COLOR, 150);
    assert_eq!(HOVERED_BUTTON_COLOR, 250);
    assert_eq!(PRESSED_BUTTON_COLOR, 350);
}

#[test]
fn buttons_only_repaint_unless_pressed() {
    let buttons: [fn(Interaction) -> Reaction; 6] = [
        interact_with_play_button,
        interact_with_exit_button,
        interact_with_main_menu_button,
        interact_with_resume_button,
        interact_with_back_button,
        interact_with_replay_button,
    ];
    for button in buttons {
        assert_eq!(button(Interaction::Hovered), painted(HOVERED_BUTTON_COLOR));
        assert_eq!(button(Interaction::Idle), painted(NORMAL_BUTTON_COLOR));
        assert_eq!(button(Interaction::Pressed).background, PRESSED_BUTTON_COLOR);
    }
}

#[test]
fn the_play_button_enters_the_game() {
    assert_eq!(
        interact_with_play_button(Interaction::Pressed),
        Reaction { app_state: Some(AppState::Game), ..painted(PRESSED_BUTTON_COLOR) }
    );
}

#[test]
fn the_exit_button_ends_the_program() {
    assert_eq!(
        interact_with_exit_button(Interaction::Pressed),
        Reaction { exit: true, ..painted(PRESSED_BUTTON_COLOR) }
    );
}

#[test]
fn the_main_menu_button_leaves_the_game() {
    assert_eq!(
        interact_with_main_menu_button(Interaction::Pressed),
        Reaction {
            app_state: Some(AppState::MainMenu),
            hud_state: Some(HudState::Hidden),
            ..painted(PRESSED_BUTTON_COLOR)
        }
    );
}

#[test]
fn the_resume_button_lets_the_clock_run() {
    assert_eq!(
        interact_with_resume_button(Interaction::Pressed),
        Reaction {
            simulation_state: Some(SimulationState::Running),
            hud_state: Some(HudState::Hidden),
            ..painted(PRESSED_BUTTON_COLOR)
        }
    );
}

#[test]
fn the_back_button_shows_the_main_menu() {
    assert_eq!(
        interact_with_back_button(Interaction::Pressed),
        Reaction { app_state: Some(AppState::MainMenu), ..painted(PRESSED_BUTTON_COLOR) }
    );
}

#[test]
fn the_replay_button_starts_the_run_again() {
    assert_eq!(
        interact_with_replay_button(Interaction::Pressed),
        Reaction {
            replay: true,
            simulation_state: Some(SimulationState::Running),
            hud_state: Some(HudState::Hidden),
            ..painted(PRESSED_BUTTON_COLOR)
        }
    );
}

#[test]
fn escape_opens_and_closes_the_pause_panel() {
    assert_eq!(input_pause_game(true, HudState::Hidden), Some(HudState::Pause));
    assert_eq!(input_pause_game(true, HudState::Pause), None);
    assert_eq!(input_pause_game(true, HudState::Score), None);
    assert_eq!(input_pause_game(false, HudState::Hidden), None);
    assert_eq!(input_resume_game(true, HudState::Pause), Some(HudState::Hidden));
    assert_eq!(input_resume_game(true, HudState::Hidden), None);
    assert_eq!(input_resume_game(true, HudState::Score), None);
    assert_eq!(input_resume_game(false, HudState::Pause), None);
}

#[test]
fn the_latest_score_is_shown() {
    assert_eq!(handle_spawn_score_menu_event(&Vec::new()), None);
    let events = vec![
        SpawnScoreMenuEvent { points: 1, time: 10 },
        SpawnScoreMenuEvent { points: 2, time: 20 },
    ];
    assert_eq!(
        handle_spawn_score_menu_event(&events),
        Some(ScoreMenu {
            shown: SpawnScoreMenuEvent { points: 2, time: 20 },
            simulation_state: SimulationState::Paused,
            hud_state: HudState::Score,
        })
    );
}

#[test]
fn the_rules_run_in_a_running_game_only() {
    assert!(is_playing(AppState::Game, SimulationState::Running));
    assert!(!is_playing(AppState::Game, SimulationState::Paused));
    assert!(!is_playing(AppState::MainMenu, SimulationState::Running));
    assert!(!is_playing(AppState::Levels, SimulationState::Running));
    assert!(!is_playing(AppState::Levels, SimulationState::Paused));
}

#[test]
fn states_at_the_start() {
    assert_eq!(AppState::default(), AppState::MainMenu);
    assert_eq!(SimulationState::default(), SimulationState::Running);
    assert_eq!(HudState::default(), HudState::Hidden);
    assert_eq!(Interaction::default(), Interaction::Idle);
}

#[test]
fn the_pause_panel_stops_the_clock() {
    assert_eq!(spawn_pause_menu(), SimulationState::Paused);
    assert_eq!(despawn_pause_menu(), SimulationState::Running);
    assert_eq!(start_running(), SimulationState::Running);
}

#[test]
fn the_score_label_is_written_when_the_score_changes() {
    assert_eq!(update_score_label(false, &Score { current: 3, needed: 5 }), None);
    assert_eq!(
        update_score_label(true, &Score { current: 3, needed: 5 }),
        Some(String::from("3"))
    );
    assert_eq!(
        update_score_label(true, &Score { current: 0, needed: 5 }),
        Some(String::from("0"))
    );
    assert_eq!(
        update_score_label(true, &Score { current: 1_040, needed: 5 }),
        Some(String::from("1040"))
    );
}

#[test]
fn times_are_shown_in_hundredths() {
    assert_eq!(time_label(12_340), "12.34");
    assert_eq!(time_label(12_349), "12.34");
    assert_eq!(time_label(12_300), "12.3");
    assert_eq!(time_label(12_000), "12");
    assert_eq!(time_label(12_009), "12");
    assert_eq!(time_label(0), "0");
    assert_eq!(time_label(9), "0");
    assert_eq!(time_label(10), "0.01");
    assert_eq!(time_label(70), "0.07");
    assert_eq!(time_label(100), "0.1");
    assert_eq!(time_label(1_050), "1.05");
    assert_eq!(time_label(600_000), "600");
}

#[test]
fn times_before_the_start_are_rounded_down() {
    assert_eq!(time_label(-1), "-0.01");
    assert_eq!(time_label(-10), "-0.01");
    assert_eq!(time_label(-11), "-0.02");
    assert_eq!(time_label(-1_000), "-1");
    assert_eq!(time_label(-1_500), "-1.5");
}

#[test]
fn the_longest_times() {
    assert_eq!(time_label(i64::MAX), "9223372036854775.8");
    assert_eq!(time_label(i64::MIN), "-9223372036854775.81");
}
