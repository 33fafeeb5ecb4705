//! The run lifecycle as a state machine: waiting on data, parked on the title
//! card, mid-run, or resolved. Each frame the host reports what happened and
//! this decides where the session goes and what the host must do about it.

use vstd::prelude::*;

verus! {

/// Where the session is.
#[derive(Debug, Clone, Copy, PartialEq, Eq, Structural, Hash)]
pub enum GameState {
    /// Waiting for the scenario and class table to load.
    Loading,
    /// The start screen: the ship is spawned and the simulation frozen.
    Menu,
    Playing,
    GameOver,
}

/// How the encounter stands.
#[derive(Debug, Clone, Copy, PartialEq, Eq, Structural)]
pub enum Outcome {
    InProgress,
    Cleared,
    PlayerDestroyed,
}

/// What the host saw this frame.
#[derive(Debug, Clone, Copy, PartialEq, Eq, Structural)]
pub struct SessionInput {
    /// The selected scenario and the class table have both finished loading,
    /// one way or the other.
    pub data_settled: bool,
    /// The design panel is not swallowing input.
    pub has_input: bool,
    /// The test-range control went down.
    pub test_range_pressed: bool,
    /// A start control went down.
    pub start_pressed: bool,
    /// A restart control went down.
    pub restart_pressed: bool,
    /// The encounter's outcome as the simulation reports it.
    pub outcome: Outcome,
}

/// What the host must do as the session moves.
#[derive(Debug, Clone, Copy, PartialEq, Eq, Structural)]
pub enum SessionEffect {
    /// Nothing changes.
    Stay,
    /// Lay out the loaded scenario and show the title card (sim frozen).
    LayOut,
    /// Select the test range and re-enter loading, clearing the field.
    SwitchToTestRange,
    /// Thaw the simulation: the run begins.
    CastOff,
    /// The run has ended: fold it into the career and save it.
    RecordRun,
    /// Clear the field, re-lay the same scenario and start again.
    Restart,
}

/// The next state and the host's duty, from the current state and what
/// happened this frame.
pub open spec fn step_spec(state: GameState, input: SessionInput) -> (GameState, SessionEffect) {
    match state {
        GameState::Loading => if input.data_settled {
            (GameState::Menu, SessionEffect::LayOut)
        } else {
            (GameState::Loading, SessionEffect::Stay)
        },
        GameState::Menu => if !input.has_input {
            (GameState::Menu, SessionEffect::Stay)
        } else if input.test_range_pressed {
            (GameState::Loading, SessionEffect::SwitchToTestRange)
        } else if input.start_pressed {
            (GameState::Playing, SessionEffect::CastOff)
        } else {
            (GameState::Menu, SessionEffect::Stay)
        },
        GameState::Playing => if input.outcome != Outcome::InProgress {
            (GameState::GameOver, SessionEffect::RecordRun)
        } else {
            (GameState::Playing, SessionEffect::Stay)
        },
        GameState::GameOver => if input.has_input && input.restart_pressed {
            (GameState::Playing, SessionEffect::Restart)
        } else {
            (GameState::GameOver, SessionEffect::Stay)
        },
    }
}

/// Advance the session by one frame.
pub fn session_step(state: GameState, input: SessionInput) -> (r: (GameState, SessionEffect))
    ensures
        r == step_spec(state, input),
{
    match state {
        GameState::Loading => if input.data_settled {
            (GameState::Menu, SessionEffect::LayOut)
        } else {
            (GameState::Loading, SessionEffect::Stay)
        },
        GameState::Menu => if !input.has_input {
            (GameState::Menu, SessionEffect::Stay)
        } else if input.test_range_pressed {
            (GameState::Loading, SessionEffect::SwitchToTestRange)
        } else if input.start_pressed {
            (GameState::Playing, SessionEffect::CastOff)
        } else {
            (GameState::Menu, SessionEffect::Stay)
        },
        GameState::Playing => if input.outcome != Outcome::InProgress {
            (GameState::GameOver, SessionEffect::RecordRun)
        } else {
            (GameState::Playing, SessionEffect::Stay)
        },
        GameState::GameOver => if input.has_input && input.restart_pressed {
            (GameState::Playing, SessionEffect::Restart)
        } else {
            (GameState::GameOver, SessionEffect::Stay)
        },
    }
}

impl GameState {
    /// A session starts by waiting for its data.
    pub fn initial() -> (s: GameState)
        ensures
            s == GameState::Loading,
    {
        GameState::Loading
    }

    /// Which full-screen card the HUD shows. Loading shows the title card too:
    /// it lasts a handful of frames, and a separate screen would read as a bug.
    pub fn screen(self) -> (name: &'static str)
        ensures
            name@ == (match self {
                GameState::Loading | GameState::Menu => "start"@,
                GameState::Playing => "playing"@,
                GameState::GameOver => "gameover"@,
            }),
    {
        match self {
            GameState::Loading | GameState::Menu => "start",
            GameState::Playing => "playing",
            GameState::GameOver => "gameover",
        }
    }
}

impl Outcome {
    /// The outcome as the HUD page names it.
    pub fn wire_name(self) -> (name: &'static str)
        ensures
            name@ == (match self {
                Outcome::InProgress => "in_progress"@,
                Outcome::Cleared => "cleared"@,
                Outcome::PlayerDestroyed => "destroyed"@,
            }),
    {
        match self {
            Outcome::InProgress => "in_progress",
            Outcome::Cleared => "cleared",
            Outcome::PlayerDestroyed => "destroyed",
        }
    }
}

/// The outcome as the scenario corpus reports it.
pub fn outcome_label(outcome: Outcome) -> (label: &'static str)
    ensures
        label@ == (match outcome {
            Outcome::InProgress => "in-progress"@,
            Outcome::Cleared => "cleared"@,
            Outcome::PlayerDestroyed => "player-destroyed"@,
        }),
{
    match outcome {
        Outcome::InProgress => "in-progress",
        Outcome::Cleared => "cleared",
        Outcome::PlayerDestroyed => "player-destroyed",
    }
}

/// A session driven through a run of frames: where it ends, how many runs it
/// recorded, and how many runs it began.
pub open spec fn run_session(state: GameState, inputs: Seq<SessionInput>) -> (GameState, nat, nat)
    decreases inputs.len(),
{
    if inputs.len() == 0 {
        (state, 0, 0)
    } else {
        let (s, records, starts) = run_session(state, inputs.drop_last());
        let (next, effect) = step_spec(s, inputs.last());
        let records2 = if effect == SessionEffect::RecordRun {
            records + 1
        } else {
            records
        };
        let starts2 = if effect == SessionEffect::CastOff || effect == SessionEffect::Restart {
            starts + 1
        } else {
            starts
        };
        (next, records2, starts2)
    }
}

/// A run is recorded once: however long the game-over card stays up, a session
/// never records more runs than it has begun.
pub proof fn law_each_run_recorded_once(state: GameState, inputs: Seq<SessionInput>)
    requires
        state != GameState::Playing,
    ensures
        run_session(state, inputs).1 + (if run_session(state, inputs).0 == GameState::Playing {
            1int
        } else {
            0
        }) == run_session(state, inputs).2,
    decreases inputs.len(),
{
    if inputs.len() > 0 {
        law_each_run_recorded_once(state, inputs.drop_last());
    }
}

/// The career is only ever written on the way into the game-over card, and
/// only once the encounter has actually been decided.
pub proof fn law_record_only_on_resolution(state: GameState, input: SessionInput)
    ensures
        step_spec(state, input).1 == SessionEffect::RecordRun <==> (state == GameState::Playing
            && input.outcome != Outcome::InProgress),
        step_spec(state, input).1 == SessionEffect::RecordRun ==> step_spec(state, input).0
            == GameState::GameOver,
{
}

} // verus!
