//! How the daemon serves one request.
//!
//! A connection carries one request and gets one response. Between the two
//! the daemon performs the actions that [`begin`] and [`Session::advance`]
//! hand it, one at a time, and reports how each one went. Nothing is kept
//! from one request to the next.

use crate::ipc::{Request, Response};
use crate::mouse::{
    Action, Job, JobView, MouseButton, MouseButtonState, MouseError, Outcome, Step, StepView,
    VirtualMouse,
};
use vstd::prelude::*;
use vstd::string::StringExecFns;

verus! {

/// Pause before a click is served, in milliseconds: the overlay that sent it
/// has to close and give the input back first.
pub const OVERLAY_CLOSE_MS: u64 = 500;

/// The button that a request's button number means: 2 the right one, 1 the
/// middle one, any other the left one.
pub open spec fn spec_button_from_code(code: u16) -> MouseButton {
    if code == 2 {
        MouseButton::Right
    } else if code == 1 {
        MouseButton::Middle
    } else {
        MouseButton::Left
    }
}

/// The state that a request's state number means: 0 released, any other
/// pressed.
pub open spec fn spec_state_from_code(code: i32) -> MouseButtonState {
    if code == 0 {
        MouseButtonState::Up
    } else {
        MouseButtonState::Down
    }
}

/// The states that a request's state numbers mean, one for one.
pub open spec fn spec_states_from_codes(codes: Seq<i32>) -> Seq<MouseButtonState> {
    Seq::new(codes.len(), |i: int| spec_state_from_code(codes[i]))
}

/// The words for an error.
pub open spec fn spec_error_text(error: MouseError) -> Seq<char> {
    match error {
        MouseError::OutOfRange => "scaled coordinates are out of range"@,
        MouseError::Device(cause) => cause@,
    }
}

/// The button that a request's button number means.
#[verifier::when_used_as_spec(spec_button_from_code)]
pub fn button_from_code(code: u16) -> (button: MouseButton)
    ensures
        button == spec_button_from_code(code),
{
    if code == 2 {
        MouseButton::Right
    } else if code == 1 {
        MouseButton::Middle
    } else {
        MouseButton::Left
    }
}

/// The state that a request's state number means.
#[verifier::when_used_as_spec(spec_state_from_code)]
pub fn state_from_code(code: i32) -> (state: MouseButtonState)
    ensures
        state == spec_state_from_code(code),
{
    if code == 0 {
        MouseButtonState::Up
    } else {
        MouseButtonState::Down
    }
}

/// The states that a request's state numbers mean, one for one.
pub fn states_from_codes(codes: &Vec<i32>) -> (states: Vec<MouseButtonState>)
    ensures
        states@ == spec_states_from_codes(codes@),
{
    let mut states: Vec<MouseButtonState> = Vec::new();
    let mut i: usize = 0;
    while i < codes.len()
        invariant
            i <= codes@.len(),
            states@.len() == i,
            forall|k: int| 0 <= k < i ==> states@[k] == spec_state_from_code(codes@[k]),
        decreases codes@.len() - i,
    {
        states.push(state_from_code(codes[i]));
        i = i + 1;
    }
    assert(states@ =~= spec_states_from_codes(codes@));
    states
}

/// The response to a request that ended with `result`.
pub fn response_for(result: Result<(), MouseError>) -> (response: Response)
    ensures
        match result {
            Ok(_) => response == Response::Done,
            Err(error) => response matches Response::Error(text) && text@ == spec_error_text(
                error,
            ),
        },
{
    match result {
        Ok(_) => Response::Done,
        Err(MouseError::OutOfRange) => Response::Error(
            String::from_str("scaled coordinates are out of range"),
        ),
        Err(MouseError::Device(cause)) => Response::Error(cause),
    }
}

/// A request that is being served.
#[derive(Debug, PartialEq, Eq)]
pub enum Session {
    /// A click that waits for the overlay to close.
    Settling {
        x: i32,
        y: i32,
        button: MouseButton,
        states: Vec<MouseButtonState>,
        repeat: u32,
        absolute: bool,
    },
    /// The pointer is at work.
    Running(Job),
}

/// One turn of a session: the next action with the session that awaits its
/// outcome, or the response that ends it.
#[derive(Debug, PartialEq, Eq)]
pub enum Turn {
    Perform(Session, Action),
    Reply(Response),
}

/// A session as a mathematical value.
pub enum SessionView {
    Settling {
        x: i32,
        y: i32,
        button: MouseButton,
        states: Seq<MouseButtonState>,
        repeat: u32,
        absolute: bool,
    },
    Running(JobView),
}

/// A turn as a mathematical value: a response counts as what it says.
pub enum TurnView {
    Perform(SessionView, Action),
    Reply(Result<(), Seq<char>>),
}

impl View for Session {
    type V = SessionView;

    open spec fn view(&self) -> SessionView {
        match self {
            Session::Settling { x, y, button, states, repeat, absolute } => SessionView::Settling {
                x: *x,
                y: *y,
                button: *button,
                states: states@,
                repeat: *repeat,
                absolute: *absolute,
            },
            Session::Running(job) => SessionView::Running(job@),
        }
    }
}

impl View for Turn {
    type V = TurnView;

    open spec fn view(&self) -> TurnView {
        match self {
            Turn::Perform(session, action) => TurnView::Perform(session@, *action),
            Turn::Reply(response) => TurnView::Reply(response@),
        }
    }
}

/// The turn of a session whose pointer job took the turn `step`.
pub open spec fn spec_turn_of(step: StepView) -> TurnView {
    match step {
        StepView::Perform(job, action) => TurnView::Perform(SessionView::Running(job), action),
        StepView::Finish(Ok(_)) => TurnView::Reply(Ok(())),
        StepView::Finish(Err(error)) => TurnView::Reply(Err(spec_error_text(error))),
    }
}

/// The first turn for `request`: a move or a scroll starts at once, a click
/// waits for the overlay to close, and the reserved request is answered
/// without doing anything.
pub open spec fn spec_begin(mouse: VirtualMouse, request: Request) -> TurnView {
    match request {
        Request::Move { x, y, absolute } => spec_turn_of(mouse.spec_move(x, y, absolute)),
        Request::Scroll { x, y } => spec_turn_of(mouse.spec_scroll(x, y)),
        Request::Click { x, y, button, button_states, repeat, absolute } => TurnView::Perform(
            SessionView::Settling {
                x,
                y,
                button: spec_button_from_code(button),
                states: spec_states_from_codes(button_states@),
                repeat,
                absolute,
            },
            Action::Sleep { millis: OVERLAY_CLOSE_MS },
        ),
        Request::DoMouseAction { .. } => TurnView::Reply(Ok(())),
    }
}

impl SessionView {
    /// The turn that follows when the last action had `outcome`.
    pub open spec fn advance(self, mouse: VirtualMouse, outcome: Outcome) -> TurnView {
        match self {
            SessionView::Settling { x, y, button, states, repeat, absolute } => spec_turn_of(
                mouse.spec_click(x, y, button, states, repeat, absolute),
            ),
            SessionView::Running(job) => spec_turn_of(job.advance(outcome)),
        }
    }

    /// A bound on the number of actions that are still to come.
    pub open spec fn turns_left(self) -> nat {
        match self {
            SessionView::Settling { states, repeat, .. } => (2 * (repeat * states.len()) + 3
                * repeat + 8) as nat,
            SessionView::Running(job) => job.turns_left(),
        }
    }
}

fn turn_of(step: Step) -> (turn: Turn)
    ensures
        turn@ == spec_turn_of(step@),
{
    match step {
        Step::Perform(job, action) => Turn::Perform(Session::Running(job), action),
        Step::Finish(result) => Turn::Reply(response_for(result)),
    }
}

/// Starts to serve `request`.
pub fn begin(mouse: &VirtualMouse, request: Request) -> (turn: Turn)
    ensures
        turn@ == spec_begin(*mouse, request),
{
    match request {
        Request::Move { x, y, absolute } => turn_of(mouse.move_pointer(x, y, absolute)),
        Request::Scroll { x, y } => turn_of(mouse.scroll(x, y)),
        Request::Click { x, y, button, button_states, repeat, absolute } => {
            let states = states_from_codes(&button_states);
            Turn::Perform(
                Session::Settling {
                    x,
                    y,
                    button: button_from_code(button),
                    states,
                    repeat,
                    absolute,
                },
                Action::Sleep { millis: OVERLAY_CLOSE_MS },
            )
        },
        Request::DoMouseAction { .. } => Turn::Reply(Response::Done),
    }
}

impl Session {
    /// Takes the outcome of the action that the session waited for and says
    /// what comes next.
    pub fn advance(self, mouse: &VirtualMouse, outcome: Outcome) -> (turn: Turn)
        ensures
            turn@ == self@.advance(*mouse, outcome),
    {
        match self {
            Session::Settling { x, y, button, states, repeat, absolute } => turn_of(
                mouse.click(x, y, button, states, repeat, absolute),
            ),
            Session::Running(job) => turn_of(job.advance(outcome)),
        }
    }
}

/// Every turn brings a session closer to its response: the bound on the
/// actions still to come shrinks with each action. This holds of every
/// session whose button states fit a vector.
pub proof fn lemma_session_makes_progress(
    session: SessionView,
    mouse: VirtualMouse,
    outcome: Outcome,
)
    requires
        match session {
            SessionView::Settling { states, .. } => states.len() <= usize::MAX,
            SessionView::Running(job) => job.states.len() <= usize::MAX,
        },
    ensures
        session.advance(mouse, outcome) matches TurnView::Perform(next, _) ==> next.turns_left()
            < session.turns_left(),
{
    match session {
        SessionView::Settling { states, repeat, .. } => {
            assert(repeat * states.len() >= 0) by (nonlinear_arith)
                requires
                    repeat >= 0,
                    states.len() >= 0,
            ;
        },
        SessionView::Running(job) => {
            crate::mouse::lemma_advance_makes_progress(job, outcome);
        },
    }
}

/// A scroll request is served by one wheel movement on the relative device,
/// the horizontal amount before the vertical, and answered by how that went:
/// nothing is tried in its place.
pub proof fn lemma_scroll_request(mouse: VirtualMouse, x: i32, y: i32, outcome: Outcome)
    ensures
        spec_begin(mouse, Request::Scroll { x, y }) matches TurnView::Perform(session, action) && {
            &&& action == (Action::Scroll { horizontal: x, vertical: y })
            &&& action.spec_events() == seq![
                (crate::mouse::InputEvent { kind: 2, code: 6, value: x }),
                (crate::mouse::InputEvent { kind: 2, code: 8, value: y }),
                (crate::mouse::InputEvent { kind: 0, code: 0, value: 0 }),
            ]
            &&& session.advance(mouse, outcome) == TurnView::Reply(
                match outcome {
                    Outcome::Success => Ok(()),
                    Outcome::Failure(cause) => Err(cause@),
                },
            )
        },
{
}

} // verus!
