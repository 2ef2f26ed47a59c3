use roll_initiative::app::{
    AppMode, EditingEncounterState, InitializeState, Participant, QuittingState, RunMode,
};
use roll_initiative::commands::{AppCommand, KeyInput, StateInducer};

fn every_kind_of_mode() -> Vec<AppMode> {
    vec![
        AppMode::Initializing(InitializeState { splash_screen_frames_remaining: 0 }),
        AppMode::Initializing(InitializeState { splash_screen_frames_remaining: 31 }),
        AppMode::Running(RunMode::EditingEncounter(vec![])),
        AppMode::Running(RunMode::EditingEncounter(vec![
            Participant::new("Goku"),
            Participant { name: "Vegeta".to_string(), initiative_rolls: [None, Some(3), None, None] },
        ])),
        AppMode::Quitting(QuittingState { quitting_screen_frames_remaining: 0 }),
        AppMode::Quitting(QuittingState { quitting_screen_frames_remaining: 17 }),
    ]
}

#[test]
fn test_app_command_from() {
    let app_mode =
        AppMode::Running(RunMode::EditingEncounter(EditingEncounterState::default()));
    let key = Some(KeyInput::Char('q'));
    let app_command = AppCommand::from((&app_mode, key));
    assert_eq!(app_command, AppCommand::Quit);
}

#[test]
fn test_app_command_from_none() {
    let app_mode =
        AppMode::Running(RunMode::EditingEncounter(EditingEncounterState::default()));
    let key = None;
    let app_command = AppCommand::from((&app_mode, key));
    assert_eq!(app_command, AppCommand::NoOp);
}

#[test]
fn test_state_inducer_from() {
    let app_command = AppCommand::Quit;
    let state_inducer = StateInducer::from(app_command);
    let app_mode =
        AppMode::Running(RunMode::EditingEncounter(EditingEncounterState::default()));
    let new_app_mode = state_inducer.apply(&app_mode);
    assert_eq!(new_app_mode, AppMode::Quitting(QuittingState::default()));
}

#[test]
fn test_noop_induces_no_change() {
    let app_command = AppCommand::NoOp;
    let state_inducer = StateInducer::from(app_command);
    let app_mode =
        AppMode::Running(RunMode::EditingEncounter(EditingEncounterState::default()));
    let new_app_mode = state_inducer.apply(&app_mode);
    assert_eq!(new_app_mode, app_mode);
}

#[test]
fn test_quit_induces_quitting() {
    let app_command = AppCommand::Quit;
    let state_inducer = StateInducer::from(app_command);
    let app_mode =
        AppMode::Running(RunMode::EditingEncounter(EditingEncounterState::default()));
    let new_app_mode = state_inducer.apply(&app_mode);
    assert_eq!(new_app_mode, AppMode::Quitting(QuittingState::default()));
}

#[test]
fn no_key_is_no_command_in_every_mode() {
    for mode in every_kind_of_mode() {
        assert_eq!(AppCommand::from((&mode, None)), AppCommand::NoOp);
    }
}

#[test]
fn quit_key_counts_only_while_running() {
    for mode in every_kind_of_mode() {
        let expected = if matches!(mode, AppMode::Running(_)) {
            AppCommand::Quit
        } else {
            AppCommand::NoOp
        };
        assert_eq!(AppCommand::from((&mode, Some(KeyInput::Char('q')))), expected);
    }
}

#[test]
fn reserved_and_unknown_keys_are_no_command() {
    let keys = [
        KeyInput::Char('j'),
        KeyInput::Down,
        KeyInput::Char('k'),
        KeyInput::Up,
        KeyInput::Char('h'),
        KeyInput::Left,
        KeyInput::Char('l'),
        KeyInput::Right,
        KeyInput::Enter,
        KeyInput::Char('e'),
        KeyInput::Char('a'),
        KeyInput::Char('d'),
        KeyInput::Backspace,
        KeyInput::Delete,
        KeyInput::Char('Q'),
        KeyInput::Char('x'),
        KeyInput::Other,
    ];
    for mode in every_kind_of_mode() {
        for key in keys {
            assert_eq!(AppCommand::from((&mode, Some(key))), AppCommand::NoOp);
        }
    }
}

#[test]
fn inducer_of_each_command() {
    assert_eq!(StateInducer::from(AppCommand::Quit), StateInducer::EnterQuitting);
    assert_eq!(StateInducer::from(AppCommand::NoOp), StateInducer::Keep);
}

#[test]
fn no_op_keeps_every_mode() {
    let keep = StateInducer::from(AppCommand::NoOp);
    for mode in every_kind_of_mode() {
        assert_eq!(keep.apply(&mode), mode);
    }
}

#[test]
fn quit_starts_a_fresh_countdown_from_other_modes() {
    let quit = StateInducer::from(AppCommand::Quit);
    for mode in every_kind_of_mode() {
        if !matches!(mode, AppMode::Quitting(_)) {
            assert_eq!(
                quit.apply(&mode),
                AppMode::Quitting(QuittingState { quitting_screen_frames_remaining: 48 })
            );
        }
    }
}

#[test]
fn quit_keeps_a_running_countdown() {
    let quit = StateInducer::from(AppCommand::Quit);
    let mode = AppMode::Quitting(QuittingState { quitting_screen_frames_remaining: 17 });
    assert_eq!(quit.apply(&mode), mode);
    let mode = AppMode::Quitting(QuittingState { quitting_screen_frames_remaining: 0 });
    assert_eq!(quit.apply(&mode), mode);
}

#[test]
fn quit_twice_is_quit_once() {
    let quit = StateInducer::from(AppCommand::Quit);
    for mode in every_kind_of_mode() {
        let once = quit.apply(&mode);
        let twice = quit.apply(&once);
        assert_eq!(twice, once);
    }
    let running = AppMode::Running(RunMode::EditingEncounter(vec![]));
    let ticked = quit.apply(&running).next_state(None).unwrap();
    assert_eq!(
        ticked,
        AppMode::Quitting(QuittingState { quitting_screen_frames_remaining: 47 })
    );
    assert_eq!(quit.apply(&ticked), ticked);
}

#[test]
fn commands_in_words() {
    assert_eq!(AppCommand::Quit.to_string(), "Quit");
    assert_eq!(AppCommand::NoOp.to_string(), "");
}
