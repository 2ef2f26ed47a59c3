use roll_initiative::app::{
    AppMode, AppState, InitializeState, Participant, QuittingState, RunMode,
};
use roll_initiative::commands::{AppCommand, KeyInput, StateInducer};
use roll_initiative::FRAMES_PER_SECOND;

#[test]
fn test_app_mode_initial_state() {
    let app = AppMode::default();

    let result = app.next_state(None);

    assert_eq!(result, Some(AppMode::Initializing(InitializeState {
        splash_screen_frames_remaining: (FRAMES_PER_SECOND * 2) as u32 - 1,
    })));
}

#[test]
fn test_app_mode_initial_state_to_running() {
    let app = AppMode::Initializing(InitializeState {
        splash_screen_frames_remaining: 0,
    });

    let result = app.next_state(None);

    assert_eq!(result, Some(AppMode::Running(RunMode::EditingEncounter(vec![]))));
}

#[test]
fn test_app_mode_running_state_decrements_per_frame() {
    let app = AppMode::Quitting(QuittingState {
        quitting_screen_frames_remaining: 1,
    });

    let result = app.next_state(None);

    assert_eq!(result, Some(AppMode::Quitting(QuittingState {
        quitting_screen_frames_remaining: 0,
    })));
}

#[test]
fn test_app_mode_quitting_state_to_none() {
    let app = AppMode::Quitting(QuittingState {
        quitting_screen_frames_remaining: 0,
    });

    let result = app.next_state(None);

    assert_eq!(result, None);
}

#[test]
fn test_quitting_command_induce_state_change() {
    let app = AppMode::Running(RunMode::EditingEncounter(vec![]));

    let func = StateInducer::from(AppCommand::Quit);
    let result = func.apply(&app);

    assert_eq!(result, AppMode::Quitting(QuittingState {
        quitting_screen_frames_remaining: (FRAMES_PER_SECOND * 2) as u32,
    }));
}

#[test]
fn defaults_hold_two_seconds_of_frames() {
    assert_eq!(FRAMES_PER_SECOND, 24);
    assert_eq!(InitializeState::default().splash_screen_frames_remaining, 48);
    assert_eq!(QuittingState::default().quitting_screen_frames_remaining, 48);
    assert_eq!(
        AppMode::default(),
        AppMode::Initializing(InitializeState { splash_screen_frames_remaining: 48 })
    );
    assert_eq!(AppState::default(), AppState::default());
}

#[test]
fn splash_screen_counts_down_whatever_the_key() {
    let keys = [None, Some(KeyInput::Char('q')), Some(KeyInput::Enter), Some(KeyInput::Other)];
    for key in keys {
        let app = AppMode::Initializing(InitializeState { splash_screen_frames_remaining: 1 });
        let next = app.next_state(key);
        assert_eq!(
            next,
            Some(AppMode::Initializing(InitializeState { splash_screen_frames_remaining: 0 }))
        );
        let after = next.unwrap().next_state(key);
        assert_eq!(after, Some(AppMode::Running(RunMode::EditingEncounter(vec![]))));
    }
}

#[test]
fn farewell_screen_counts_down_whatever_the_key() {
    let keys = [None, Some(KeyInput::Char('q')), Some(KeyInput::Delete)];
    for key in keys {
        let app = AppMode::Quitting(QuittingState { quitting_screen_frames_remaining: 7 });
        assert_eq!(
            app.next_state(key),
            Some(AppMode::Quitting(QuittingState { quitting_screen_frames_remaining: 6 }))
        );
        let app = AppMode::Quitting(QuittingState { quitting_screen_frames_remaining: 0 });
        assert_eq!(app.next_state(key), None);
    }
}

#[test]
fn countdown_from_the_largest_value() {
    let app = AppMode::Initializing(InitializeState { splash_screen_frames_remaining: u32::MAX });
    assert_eq!(
        app.next_state(None),
        Some(AppMode::Initializing(InitializeState {
            splash_screen_frames_remaining: u32::MAX - 1
        }))
    );
}

#[test]
fn running_quits_on_the_quit_key() {
    let app = AppMode::Running(RunMode::EditingEncounter(vec![Participant::new("Goku")]));
    assert_eq!(
        app.next_state(Some(KeyInput::Char('q'))),
        Some(AppMode::Quitting(QuittingState { quitting_screen_frames_remaining: 48 }))
    );
}

#[test]
fn running_stays_as_it_is_on_other_keys() {
    let keys = [
        None,
        Some(KeyInput::Char('j')),
        Some(KeyInput::Char('Q')),
        Some(KeyInput::Up),
        Some(KeyInput::Backspace),
        Some(KeyInput::Other),
    ];
    for key in keys {
        let app = AppMode::Running(RunMode::EditingEncounter(vec![
            Participant::new("Goku"),
            Participant { name: "Vegeta".to_string(), initiative_rolls: [Some(9), None, None, None] },
        ]));
        assert_eq!(app.next_state(key), Some(app.clone()));
    }
}

#[test]
fn whole_run_from_start_to_end() {
    let mut mode = AppMode::default();
    let mut ticks = 0;
    while !matches!(mode, AppMode::Running(_)) {
        mode = mode.next_state(None).unwrap();
        ticks += 1;
    }
    assert_eq!(ticks, 49);
    mode = mode.next_state(Some(KeyInput::Char('q'))).unwrap();
    let mut ticks = 0;
    while let Some(next) = mode.next_state(Some(KeyInput::Char('a'))) {
        assert!(matches!(next, AppMode::Quitting(_)));
        mode = next;
        ticks += 1;
    }
    assert_eq!(ticks, 48);
    assert_eq!(mode, AppMode::Quitting(QuittingState { quitting_screen_frames_remaining: 0 }));
}
