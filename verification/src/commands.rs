//! Commands: what a key means in a given mode, and what a command does to
//! the mode.

use vstd::prelude::*;
use crate::app::{fresh_quitting, AppMode, AppModeView, QuittingState};

verus! {

/// A key as the input source reports it: a character or one of the named
/// keys that the bindings know; every other key is `Other`.
#[derive(Clone, Copy, Debug, PartialEq, Eq)]
pub enum KeyInput {
    Char(char),
    Up,
    Down,
    Left,
    Right,
    Enter,
    Backspace,
    Delete,
    Other,
}

/// What the user asked for, apart from how it is carried out.
#[derive(Clone, Copy, Debug, PartialEq, Eq)]
pub enum AppCommand {
    Quit,
    NoOp,
}

/// A transformation of the mode, chosen by a command.
#[derive(Clone, Copy, Debug, PartialEq, Eq)]
pub enum StateInducer {
    /// Go to the farewell screen; stay on it where it is already shown.
    EnterQuitting,
    /// Leave the mode as it is.
    Keep,
}

/// The character that is bound to [`AppCommand::Quit`].
pub open spec fn quit_key() -> KeyInput {
    KeyInput::Char('q')
}

/// The command that `key` stands for in `mode`.
///
/// Only a running application takes commands, and of all keys only the quit
/// key is bound to one that does anything.
pub open spec fn command_for(mode: AppModeView, key: Option<KeyInput>) -> AppCommand {
    if mode is Running && key == Some(quit_key()) {
        AppCommand::Quit
    } else {
        AppCommand::NoOp
    }
}

/// The transformation that `command` selects.
pub open spec fn inducer_for(command: AppCommand) -> StateInducer {
    match command {
        AppCommand::Quit => StateInducer::EnterQuitting,
        AppCommand::NoOp => StateInducer::Keep,
    }
}

impl AppCommand {
    /// The command in words, as a help text shows it: nothing for the
    /// command that does nothing.
    pub open spec fn words(self) -> Seq<char> {
        match self {
            AppCommand::Quit => "Quit"@,
            AppCommand::NoOp => Seq::empty(),
        }
    }

    /// The command in words.
    pub fn to_string(&self) -> (text: String)
        ensures
            text@ == self.words(),
    {
        match self {
            AppCommand::Quit => "Quit".to_owned(),
            AppCommand::NoOp => String::new(),
        }
    }
}

impl StateInducer {
    /// The mode that this transformation makes of `mode`.
    ///
    /// Entering the farewell screen keeps a countdown that is already
    /// running and starts a fresh one from any other mode.
    pub open spec fn induced(self, mode: AppModeView) -> AppModeView {
        match self {
            StateInducer::EnterQuitting => if mode is Quitting {
                mode
            } else {
                fresh_quitting()
            },
            StateInducer::Keep => mode,
        }
    }

    /// Applies the transformation to `mode`.
    pub fn apply(&self, mode: &AppMode) -> (next: AppMode)
        ensures
            next@ == self.induced(mode@),
    {
        match self {
            StateInducer::EnterQuitting => match mode {
                AppMode::Quitting(state) => AppMode::Quitting(state.clone()),
                _ => AppMode::Quitting(QuittingState::default()),
            },
            StateInducer::Keep => mode.clone(),
        }
    }
}

impl<'a> From<(&'a AppMode, Option<KeyInput>)> for AppCommand {
    /// The key bindings of each mode.
    fn from(value: (&'a AppMode, Option<KeyInput>)) -> (command: AppCommand)
        ensures
            command == command_for(value.0@, value.1),
    {
        match value.1 {
            None => AppCommand::NoOp,
            Some(key) => match value.0 {
                AppMode::Initializing(_) | AppMode::Quitting(_) => AppCommand::NoOp,
                AppMode::Running(_) => match key {
                    KeyInput::Char('j') | KeyInput::Down => AppCommand::NoOp,
                    KeyInput::Char('k') | KeyInput::Up => AppCommand::NoOp,
                    KeyInput::Char('h') | KeyInput::Left => AppCommand::NoOp,
                    KeyInput::Char('l') | KeyInput::Right => AppCommand::NoOp,
                    KeyInput::Enter | KeyInput::Char('e') => AppCommand::NoOp,
                    KeyInput::Char('a') => AppCommand::NoOp,
                    KeyInput::Char('d') | KeyInput::Backspace | KeyInput::Delete => AppCommand::NoOp,
                    KeyInput::Char('q') => AppCommand::Quit,
                    _ => AppCommand::NoOp,
                },
            },
        }
    }
}

impl<'a> vstd::std_specs::convert::FromSpecImpl<(&'a AppMode, Option<KeyInput>)> for AppCommand {
    open spec fn obeys_from_spec() -> bool {
        true
    }

    open spec fn from_spec(value: (&'a AppMode, Option<KeyInput>)) -> AppCommand {
        command_for(value.0@, value.1)
    }
}

impl From<AppCommand> for StateInducer {
    fn from(command: AppCommand) -> (inducer: StateInducer)
        ensures
            inducer == inducer_for(command),
    {
        match command {
            AppCommand::Quit => StateInducer::EnterQuitting,
            AppCommand::NoOp => StateInducer::Keep,
        }
    }
}

impl vstd::std_specs::convert::FromSpecImpl<AppCommand> for StateInducer {
    open spec fn obeys_from_spec() -> bool {
        true
    }

    open spec fn from_spec(command: AppCommand) -> StateInducer {
        inducer_for(command)
    }
}

/// Without a key there is no command, whatever the mode.
pub proof fn lemma_no_key_no_command(mode: AppModeView)
    ensures
        command_for(mode, None) == AppCommand::NoOp,
{
}

/// Only the quit key, and only while the application is running, gives a
/// command that does anything.
pub proof fn lemma_quit_needs_running_and_quit_key(mode: AppModeView, key: Option<KeyInput>)
    ensures
        command_for(mode, key) == AppCommand::Quit <==> mode is Running && key == Some(quit_key()),
{
}

/// What the command that does nothing induces leaves every mode as it is.
pub proof fn lemma_no_op_keeps_mode(mode: AppModeView)
    ensures
        inducer_for(AppCommand::NoOp).induced(mode) == mode,
{
}

/// Quitting leads to the farewell screen: with a fresh countdown from any
/// other mode, with the countdown as it stands from the farewell screen
/// itself. So quitting twice is quitting once.
pub proof fn lemma_quit_twice_is_quit_once(mode: AppModeView)
    ensures
        inducer_for(AppCommand::Quit).induced(mode) is Quitting,
        !(mode is Quitting) ==> inducer_for(AppCommand::Quit).induced(mode) == fresh_quitting(),
        mode is Quitting ==> inducer_for(AppCommand::Quit).induced(mode) == mode,
        inducer_for(AppCommand::Quit).induced(inducer_for(AppCommand::Quit).induced(mode))
            == inducer_for(AppCommand::Quit).induced(mode),
{
}

} // verus!
