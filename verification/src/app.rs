//! The application's modes, the participants of an encounter and the combat
//! turns that their initiative rolls give.

use std::str::FromStr;
use vstd::prelude::*;
use crate::commands::{
    command_for, inducer_for, quit_key, AppCommand, KeyInput, StateInducer,
};
use crate::turn_order::{
    all_turns, lemma_all_turns_len, lemma_insert_turn, lemma_no_rolls_no_turns,
    lemma_ordered_turns_sorted, lemma_ordered_turns_stable, lemma_turn_order_unique,
    ordered_turns, same_ties, sorted_descending, total_filled_slots, turns_of, turns_of_rolls,
};
use crate::FRAMES_PER_SECOND;

verus! {

/// How many initiative rolls one participant can hold.
pub const ROLL_SLOTS: usize = 4;

/// The splash screen, shown for a number of frames before the encounter opens.
#[derive(Debug, PartialEq, Eq)]
pub struct InitializeState {
    pub splash_screen_frames_remaining: u32,
}

/// The farewell screen, shown for a number of frames before the program ends.
#[derive(Debug, PartialEq, Eq)]
pub struct QuittingState {
    pub quitting_screen_frames_remaining: u32,
}

/// The participant list that is edited before combat starts.
pub type EditingEncounterState = Vec<Participant>;

/// What the application does while it is running.
#[derive(Debug, PartialEq, Eq)]
pub enum RunMode {
    EditingEncounter(EditingEncounterState),
}

/// The phase the application is in, with the data of that phase. This value
/// is the whole state of the application.
#[derive(Debug, PartialEq, Eq)]
pub enum AppMode {
    Initializing(InitializeState),
    Running(RunMode),
    Quitting(QuittingState),
}

/// The application's state: the mode it is in.
#[derive(Debug, PartialEq, Eq)]
pub struct AppState {
    mode: AppMode,
}

/// An entrant in the encounter: a display name and a fixed number of roll
/// slots, each empty or holding one initiative roll.
#[derive(Debug, PartialEq, Eq)]
pub struct Participant {
    pub name: String,
    pub initiative_rolls: [Option<u8>; ROLL_SLOTS],
}

/// What a [`Participant`] is, mathematically: its name as a sequence of
/// characters and its roll slots in order.
pub struct ParticipantView {
    pub name: Seq<char>,
    pub initiative_rolls: Seq<Option<u8>>,
}

/// One turn of the combat: who acts, on which roll, and in what condition.
#[derive(Debug, PartialEq, Eq)]
pub struct CombatTurn {
    pub name: String,
    pub initiative_roll_value: u8,
    pub unconscious: bool,
    pub dead: bool,
}

/// What a [`CombatTurn`] is, mathematically.
pub struct CombatTurnView {
    pub name: Seq<char>,
    pub initiative_roll_value: u8,
    pub unconscious: bool,
    pub dead: bool,
}

/// What a [`RunMode`] is, mathematically.
pub enum RunModeView {
    EditingEncounter(Seq<ParticipantView>),
}

/// What an [`AppMode`] is, mathematically.
pub enum AppModeView {
    Initializing(InitializeState),
    Running(RunModeView),
    Quitting(QuittingState),
}

impl View for Participant {
    type V = ParticipantView;

    open spec fn view(&self) -> ParticipantView {
        ParticipantView { name: self.name@, initiative_rolls: self.initiative_rolls@ }
    }
}

impl DeepView for Participant {
    type V = ParticipantView;

    open spec fn deep_view(&self) -> ParticipantView {
        self@
    }
}

impl View for CombatTurn {
    type V = CombatTurnView;

    open spec fn view(&self) -> CombatTurnView {
        CombatTurnView {
            name: self.name@,
            initiative_roll_value: self.initiative_roll_value,
            unconscious: self.unconscious,
            dead: self.dead,
        }
    }
}

impl DeepView for CombatTurn {
    type V = CombatTurnView;

    open spec fn deep_view(&self) -> CombatTurnView {
        self@
    }
}

impl View for RunMode {
    type V = RunModeView;

    open spec fn view(&self) -> RunModeView {
        match *self {
            RunMode::EditingEncounter(participants) => RunModeView::EditingEncounter(
                participants.deep_view(),
            ),
        }
    }
}

impl View for AppMode {
    type V = AppModeView;

    open spec fn view(&self) -> AppModeView {
        match *self {
            AppMode::Initializing(state) => AppModeView::Initializing(state),
            AppMode::Running(run_mode) => AppModeView::Running(run_mode@),
            AppMode::Quitting(state) => AppModeView::Quitting(state),
        }
    }
}

/// The number of frames for which the splash screen and the farewell screen
/// are shown: two seconds' worth.
pub open spec fn screen_frames() -> u32 {
    (FRAMES_PER_SECOND * 2) as u32
}

/// The splash screen with `frames` frames to go.
pub open spec fn splash(frames: u32) -> AppModeView {
    AppModeView::Initializing(InitializeState { splash_screen_frames_remaining: frames })
}

/// The farewell screen with `frames` frames to go.
pub open spec fn farewell(frames: u32) -> AppModeView {
    AppModeView::Quitting(QuittingState { quitting_screen_frames_remaining: frames })
}

/// The mode in which the application starts: the splash screen with its full
/// countdown.
pub open spec fn initial_mode() -> AppModeView {
    splash(screen_frames())
}

/// The farewell screen with its full countdown.
pub open spec fn fresh_quitting() -> AppModeView {
    farewell(screen_frames())
}

/// The running mode in which no participant has been entered yet.
pub open spec fn empty_encounter() -> AppModeView {
    AppModeView::Running(RunModeView::EditingEncounter(Seq::empty()))
}

/// The mode that follows `mode` after one tick on which `key` was pressed
/// (or no key, `None`); `None` when the application is done.
///
/// The splash screen and the farewell screen count their frames down and
/// ignore the key: the first gives way to an empty encounter, the second
/// ends the application. A running application turns the key into a command
/// and applies what that command induces.
pub open spec fn next_mode(mode: AppModeView, key: Option<KeyInput>) -> Option<AppModeView> {
    match mode {
        AppModeView::Initializing(state) => if state.splash_screen_frames_remaining != 0 {
            Some(splash((state.splash_screen_frames_remaining - 1) as u32))
        } else {
            Some(empty_encounter())
        },
        AppModeView::Running(_) => Some(inducer_for(command_for(mode, key)).induced(mode)),
        AppModeView::Quitting(state) => if state.quitting_screen_frames_remaining != 0 {
            Some(farewell((state.quitting_screen_frames_remaining - 1) as u32))
        } else {
            None
        },
    }
}

impl Default for InitializeState {
    fn default() -> (state: InitializeState)
        ensures
            state.splash_screen_frames_remaining == screen_frames(),
    {
        InitializeState { splash_screen_frames_remaining: (FRAMES_PER_SECOND * 2) as u32 }
    }
}

impl Default for QuittingState {
    fn default() -> (state: QuittingState)
        ensures
            state.quitting_screen_frames_remaining == screen_frames(),
    {
        QuittingState { quitting_screen_frames_remaining: (FRAMES_PER_SECOND * 2) as u32 }
    }
}

impl Default for AppMode {
    fn default() -> (mode: AppMode)
        ensures
            mode@ == initial_mode(),
    {
        AppMode::Initializing(InitializeState::default())
    }
}

impl Clone for InitializeState {
    fn clone(&self) -> (state: InitializeState)
        ensures
            state == *self,
    {
        InitializeState { splash_screen_frames_remaining: self.splash_screen_frames_remaining }
    }
}

impl Clone for QuittingState {
    fn clone(&self) -> (state: QuittingState)
        ensures
            state == *self,
    {
        QuittingState {
            quitting_screen_frames_remaining: self.quitting_screen_frames_remaining,
        }
    }
}

impl Clone for Participant {
    fn clone(&self) -> (p: Participant)
        ensures
            p == *self,
    {
        Participant { name: self.name.clone(), initiative_rolls: self.initiative_rolls }
    }
}

impl Clone for RunMode {
    fn clone(&self) -> (run_mode: RunMode)
        ensures
            run_mode@ == self@,
    {
        match self {
            RunMode::EditingEncounter(participants) => {
                let copy = participants.clone();
                assert(copy.deep_view() =~= participants.deep_view());
                RunMode::EditingEncounter(copy)
            },
        }
    }
}

impl Clone for AppMode {
    fn clone(&self) -> (mode: AppMode)
        ensures
            mode@ == self@,
    {
        match self {
            AppMode::Initializing(state) => AppMode::Initializing(state.clone()),
            AppMode::Running(run_mode) => AppMode::Running(run_mode.clone()),
            AppMode::Quitting(state) => AppMode::Quitting(state.clone()),
        }
    }
}

impl AppMode {
    /// One tick of the state machine: the mode that follows this one when
    /// `key` was pressed since the last tick (`None`: no key). Returns `None`
    /// when the application should end.
    pub fn next_state(&self, key: Option<KeyInput>) -> (next: Option<AppMode>)
        ensures
            match next {
                Some(mode) => next_mode(self@, key) == Some(mode@),
                None => next_mode(self@, key).is_none(),
            },
    {
        match self {
            AppMode::Initializing(state) => {
                if state.splash_screen_frames_remaining != 0 {
                    let frames: u32 = state.splash_screen_frames_remaining - 1;
                    Some(AppMode::Initializing(InitializeState { splash_screen_frames_remaining: frames }))
                } else {
                    let participants: Vec<Participant> = Vec::new();
                    assert(participants.deep_view() =~= Seq::empty());
                    Some(AppMode::Running(RunMode::EditingEncounter(participants)))
                }
            },
            AppMode::Running(_) => {
                let command = AppCommand::from((self, key));
                let inducer = StateInducer::from(command);
                Some(inducer.apply(self))
            },
            AppMode::Quitting(state) => {
                if state.quitting_screen_frames_remaining != 0 {
                    let frames: u32 = state.quitting_screen_frames_remaining - 1;
                    Some(AppMode::Quitting(QuittingState { quitting_screen_frames_remaining: frames }))
                } else {
                    None
                }
            },
        }
    }
}

/// The application ends on the tick after the farewell screen has counted
/// down to zero, and on no other.
pub proof fn lemma_ends_after_farewell(mode: AppModeView, key: Option<KeyInput>)
    ensures
        next_mode(mode, key) is None <==> mode == farewell(0),
{
}

/// The splash screen and the farewell screen take no input: whatever key is
/// pressed, the next mode is the one that follows without a key.
pub proof fn lemma_keys_ignored_outside_running(mode: AppModeView, key: Option<KeyInput>)
    requires
        !(mode is Running),
    ensures
        next_mode(mode, key) == next_mode(mode, None),
{
}

/// The splash screen is followed by itself or by the empty encounter, never
/// by the farewell screen.
pub proof fn lemma_splash_never_quits(mode: AppModeView, key: Option<KeyInput>)
    requires
        mode is Initializing,
    ensures
        next_mode(mode, key) is Some,
        !(next_mode(mode, key)->Some_0 is Quitting),
{
}

/// A running application goes to a fresh farewell screen on the quit key
/// and stays as it is on every other key and without one.
pub proof fn lemma_running_step(mode: AppModeView, key: Option<KeyInput>)
    requires
        mode is Running,
    ensures
        next_mode(mode, key) == if key == Some(quit_key()) {
            Some(fresh_quitting())
        } else {
            Some(mode)
        },
{
}

impl AppState {
    /// The mode the application is in.
    pub closed spec fn mode(&self) -> AppModeView {
        self.mode@
    }
}

impl Default for AppState {
    fn default() -> (state: AppState)
        ensures
            state.mode() == initial_mode(),
    {
        AppState { mode: AppMode::Initializing(InitializeState::default()) }
    }
}

/// The slots of a participant who has not rolled yet: every one empty.
pub open spec fn empty_rolls() -> Seq<Option<u8>> {
    Seq::new(ROLL_SLOTS as nat, |i: int| None::<u8>)
}

impl Participant {
    /// A participant of the given name whose roll slots are all empty.
    pub fn new(name: &str) -> (p: Participant)
        ensures
            p@.name == name@,
            p@.initiative_rolls == empty_rolls(),
    {
        let p = Participant { name: name.to_owned(), initiative_rolls: [None; ROLL_SLOTS] };
        assert(p@.initiative_rolls =~= empty_rolls());
        p
    }
}

impl FromStr for Participant {
    type Err = ();

    /// Reads a participant from its name: every text is a name.
    fn from_str(s: &str) -> (parsed: Result<Participant, ()>)
        ensures
            parsed is Ok,
            parsed->Ok_0@.name == s@,
            parsed->Ok_0@.initiative_rolls == empty_rolls(),
    {
        Ok(Participant::new(s))
    }
}

impl Clone for CombatTurn {
    fn clone(&self) -> (turn: CombatTurn)
        ensures
            turn == *self,
    {
        CombatTurn {
            name: self.name.clone(),
            initiative_roll_value: self.initiative_roll_value,
            unconscious: self.unconscious,
            dead: self.dead,
        }
    }
}

impl From<Participant> for Vec<CombatTurn> {
    /// The turns of one participant: one for each filled roll slot, in the
    /// order of the slots, each conscious and alive. A participant who has
    /// not rolled gives none.
    fn from(value: Participant) -> (turns: Vec<CombatTurn>)
        ensures
            turns.deep_view() == turns_of(value@),
            (forall|i: int| 0 <= i < value@.initiative_rolls.len() ==> value@.initiative_rolls[i] is None)
                ==> turns.len() == 0,
    {
        let ghost rolls = value@.initiative_rolls;
        let mut turns: Vec<CombatTurn> = Vec::new();
        let mut slot: usize = 0;
        assert(turns.deep_view() =~= turns_of_rolls(value@.name, rolls.take(0)));
        while slot < ROLL_SLOTS
            invariant
                slot <= ROLL_SLOTS,
                rolls == value@.initiative_rolls,
                rolls.len() == ROLL_SLOTS,
                turns.deep_view() == turns_of_rolls(value@.name, rolls.take(slot as int)),
            decreases ROLL_SLOTS - slot,
        {
            let ghost before = turns.deep_view();
            proof {
                assert(rolls.take(slot + 1).drop_last() =~= rolls.take(slot as int));
            }
            if let Some(roll) = value.initiative_rolls[slot] {
                let turn = CombatTurn {
                    name: value.name.clone(),
                    initiative_roll_value: roll,
                    unconscious: false,
                    dead: false,
                };
                turns.push(turn);
                assert(turns.deep_view() =~= before.push(turn@));
            }
            slot += 1;
        }
        proof {
            assert(rolls.take(ROLL_SLOTS as int) =~= rolls);
            if forall|i: int| 0 <= i < rolls.len() ==> rolls[i] is None {
                lemma_no_rolls_no_turns(value@.name, rolls);
            }
        }
        turns
    }
}

impl vstd::std_specs::convert::FromSpecImpl<Participant> for Vec<CombatTurn> {
    /// Two vectors of the same turns need not be the same vector, so the
    /// conversion is held to the turns it gives, not to one vector.
    open spec fn obeys_from_spec() -> bool {
        false
    }

    open spec fn from_spec(value: Participant) -> Vec<CombatTurn> {
        choose|turns: Vec<CombatTurn>| turns.deep_view() == turns_of(value@)
    }
}

/// Where a turn of `roll` goes into sorted turns: behind every turn of that
/// roll or more, before every turn of less.
fn insertion_point(sorted: &Vec<CombatTurn>, roll: u8) -> (at: usize)
    requires
        sorted_descending(sorted.deep_view()),
    ensures
        at <= sorted.len(),
        forall|i: int| 0 <= i < at ==> sorted.deep_view()[i].initiative_roll_value >= roll,
        forall|i: int|
            at <= i < sorted.len() ==> sorted.deep_view()[i].initiative_roll_value < roll,
{
    let mut at: usize = 0;
    while at < sorted.len() && sorted[at].initiative_roll_value >= roll
        invariant
            at <= sorted.len(),
            forall|i: int| 0 <= i < at ==> sorted.deep_view()[i].initiative_roll_value >= roll,
        decreases sorted.len() - at,
    {
        at += 1;
    }
    proof {
        if at < sorted.len() {
            assert(sorted.deep_view()[at as int].initiative_roll_value < roll);
        }
    }
    at
}

/// Puts the turns into the order in which they act.
fn sort_turns(turns: Vec<CombatTurn>) -> (sorted: Vec<CombatTurn>)
    ensures
        sorted.deep_view() == ordered_turns(turns.deep_view()),
        sorted.len() == turns.len(),
{
    let ghost entered = turns.deep_view();
    let mut sorted: Vec<CombatTurn> = Vec::new();
    assert(sorted.deep_view() =~= entered.take(0));
    for turn in it: turns
        invariant
            entered == turns.deep_view(),
            it.seq() == turns@,
            sorted.len() == it.index(),
            sorted_descending(sorted.deep_view()),
            same_ties(sorted.deep_view(), entered.take(it.index() as int)),
    {
        let ghost before = sorted.deep_view();
        let ghost done = it.index() as int;
        let at: usize = insertion_point(&sorted, turn.initiative_roll_value);
        proof {
            lemma_insert_turn(before, entered.take(done), at as int, turn@);
            assert(entered.take(done).push(turn@) =~= entered.take(done + 1));
        }
        sorted.insert(at, turn);
        assert(sorted.deep_view() =~= before.insert(at as int, turn@));
    }
    proof {
        assert(entered.take(entered.len() as int) =~= entered);
        lemma_turn_order_unique(sorted.deep_view(), entered);
    }
    sorted
}

/// The combat turns of the participants, in the order in which they act.
///
/// Every filled roll slot gives one turn, conscious and alive. The turns act
/// from the highest roll down; turns of the same roll act in the order in
/// which they were entered: participant by participant, slot by slot.
pub fn participants_to_ordered_combat_turns(participants: Vec<Participant>) -> (ordered: Vec<
    CombatTurn,
>)
    ensures
        ordered.deep_view() == ordered_turns(all_turns(participants.deep_view())),
        ordered.len() == total_filled_slots(participants.deep_view()),
        sorted_descending(ordered.deep_view()),
        same_ties(ordered.deep_view(), all_turns(participants.deep_view())),
{
    let ghost entered = participants.deep_view();
    let mut turns: Vec<CombatTurn> = Vec::new();
    assert(turns.deep_view() =~= all_turns(entered.take(0)));
    for participant in it: participants
        invariant
            entered == participants.deep_view(),
            it.seq() == participants@,
            turns.deep_view() == all_turns(entered.take(it.index() as int)),
    {
        let ghost before = turns.deep_view();
        let ghost done = it.index() as int;
        let mut own = Vec::from(participant);
        let ghost added = own.deep_view();
        turns.append(&mut own);
        proof {
            assert(entered.take(done + 1).drop_last() =~= entered.take(done));
            assert(turns.deep_view() =~= before + added);
        }
    }
    proof {
        assert(entered.take(entered.len() as int) =~= entered);
        lemma_all_turns_len(entered);
        lemma_ordered_turns_sorted(all_turns(entered));
        lemma_ordered_turns_stable(all_turns(entered));
    }
    sort_turns(turns)
}

} // verus!
