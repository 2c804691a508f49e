//! Plans for synthetic pointer input.
//!
//! The daemon owns two virtual devices, one for relative motion and one for
//! absolute positions. This module decides what has to happen for a move, a
//! scroll or a click: which command to try, which events to write to which
//! device, how long to pause, and what to fall back to when a mechanism
//! fails. The caller performs each [`Action`] and reports its [`Outcome`].

use vstd::prelude::*;

verus! {

/// Pause after a cursor warp or an absolute move, in milliseconds.
pub const ABSOLUTE_SETTLE_MS: u64 = 50;

/// Pause after a relative move, in milliseconds.
pub const RELATIVE_SETTLE_MS: u64 = 30;

/// Pause between the move of a click and its first press, in milliseconds.
pub const PRE_CLICK_SETTLE_MS: u64 = 100;

/// Pause after each synthetic click that succeeded, in milliseconds.
pub const SYNTHETIC_SETTLE_MS: u64 = 100;

/// Extra pause between two synthetic clicks of one request, in milliseconds.
pub const REPEAT_GAP_MS: u64 = 50;

/// Pause after each raw button event, in milliseconds.
pub const RAW_SETTLE_MS: u64 = 50;

/// Pause that ends every click, in milliseconds.
pub const FINAL_SETTLE_MS: u64 = 200;

/// A button of the pointer.
#[derive(Debug, Clone, Copy, PartialEq, Eq, Structural)]
pub enum MouseButton {
    Left,
    Right,
    Middle,
}

/// Whether a button is pressed or released.
#[derive(Debug, Clone, Copy, PartialEq, Eq, Structural)]
pub enum MouseButtonState {
    Down,
    Up,
}

/// An axis of one of the two virtual devices.
#[derive(Debug, Clone, Copy, PartialEq, Eq, Structural)]
pub enum Axis {
    RelativeX,
    RelativeY,
    Wheel,
    HorizontalWheel,
    AbsoluteX,
    AbsoluteY,
}

/// One record written to a virtual device: the kernel's `type`, `code` and
/// `value`.
#[derive(Debug, Clone, Copy, PartialEq, Eq, Structural)]
pub struct InputEvent {
    pub kind: u16,
    pub code: u16,
    pub value: i32,
}

impl Axis {
    /// The kernel's event type of the axis: relative (2) or absolute (3).
    pub open spec fn kind(self) -> u16 {
        match self {
            Axis::AbsoluteX | Axis::AbsoluteY => 3,
            _ => 2,
        }
    }

    /// The kernel's code of the axis within its event type.
    pub open spec fn code(self) -> u16 {
        match self {
            Axis::RelativeX => 0,
            Axis::RelativeY => 1,
            Axis::HorizontalWheel => 6,
            Axis::Wheel => 8,
            Axis::AbsoluteX => 0,
            Axis::AbsoluteY => 1,
        }
    }
}

impl MouseButton {
    /// The kernel's key code of the button.
    pub open spec fn code(self) -> u16 {
        match self {
            MouseButton::Left => 0x110,
            MouseButton::Right => 0x111,
            MouseButton::Middle => 0x112,
        }
    }
}

impl MouseButtonState {
    /// The value of a key event for this state: 1 pressed, 0 released.
    pub open spec fn value(self) -> i32 {
        match self {
            MouseButtonState::Down => 1,
            MouseButtonState::Up => 0,
        }
    }
}

/// The record that reports `value` on `axis`.
pub open spec fn spec_axis_event(axis: Axis, value: i32) -> InputEvent {
    InputEvent { kind: axis.kind(), code: axis.code(), value }
}

/// The record that puts `button` into `state`.
pub open spec fn spec_button_event(button: MouseButton, state: MouseButtonState) -> InputEvent {
    InputEvent { kind: 1, code: button.code(), value: state.value() }
}

/// The record that closes a group of events.
pub open spec fn spec_sync_event() -> InputEvent {
    InputEvent { kind: 0, code: 0, value: 0 }
}

/// Calls `evdev::InputEvent::new` with evdev's constant for the axis and
/// reads the record back field by field.
///
/// Trusted: that `EventType::RELATIVE` is 2 and `EventType::ABSOLUTE` is 3,
/// that `REL_X`, `REL_Y`, `REL_HWHEEL`, `REL_WHEEL` are 0, 1, 6, 8 and
/// `ABS_X`, `ABS_Y` are 0, 1, and that the record keeps what it was given.
#[verifier::external_body]
fn axis_event(axis: Axis, value: i32) -> (event: InputEvent)
    ensures
        event == spec_axis_event(axis, value),
{
    let (kind, code) = match axis {
        Axis::RelativeX => (evdev::EventType::RELATIVE, evdev::RelativeAxisCode::REL_X.0),
        Axis::RelativeY => (evdev::EventType::RELATIVE, evdev::RelativeAxisCode::REL_Y.0),
        Axis::Wheel => (evdev::EventType::RELATIVE, evdev::RelativeAxisCode::REL_WHEEL.0),
        Axis::HorizontalWheel => (evdev::EventType::RELATIVE, evdev::RelativeAxisCode::REL_HWHEEL.0),
        Axis::AbsoluteX => (evdev::EventType::ABSOLUTE, evdev::AbsoluteAxisCode::ABS_X.0),
        Axis::AbsoluteY => (evdev::EventType::ABSOLUTE, evdev::AbsoluteAxisCode::ABS_Y.0),
    };
    let raw = evdev::InputEvent::new(kind.0, code, value);
    InputEvent { kind: raw.event_type().0, code: raw.code(), value: raw.value() }
}

/// Calls `evdev::InputEvent::new` with evdev's key code for the button and
/// reads the record back field by field.
///
/// Trusted: that `EventType::KEY` is 1, that `BTN_LEFT`, `BTN_RIGHT`,
/// `BTN_MIDDLE` are 0x110, 0x111, 0x112, and that the record keeps what it
/// was given.
#[verifier::external_body]
fn button_event(button: MouseButton, state: MouseButtonState) -> (event: InputEvent)
    ensures
        event == spec_button_event(button, state),
{
    let code = match button {
        MouseButton::Left => evdev::KeyCode::BTN_LEFT,
        MouseButton::Right => evdev::KeyCode::BTN_RIGHT,
        MouseButton::Middle => evdev::KeyCode::BTN_MIDDLE,
    };
    let value = match state {
        MouseButtonState::Down => 1,
        MouseButtonState::Up => 0,
    };
    let raw = evdev::InputEvent::new(evdev::EventType::KEY.0, code.0, value);
    InputEvent { kind: raw.event_type().0, code: raw.code(), value: raw.value() }
}

/// Calls `evdev::InputEvent::new` for a synchronization report and reads the
/// record back field by field.
///
/// Trusted: that `EventType::SYNCHRONIZATION` is 0 and that the record keeps
/// what it was given.
#[verifier::external_body]
fn sync_event() -> (event: InputEvent)
    ensures
        event == spec_sync_event(),
{
    let raw = evdev::InputEvent::new(evdev::EventType::SYNCHRONIZATION.0, 0, 0);
    InputEvent { kind: raw.event_type().0, code: raw.code(), value: raw.value() }
}

/// Which of the two virtual devices an action writes to.
#[derive(Debug, Clone, Copy, PartialEq, Eq, Structural)]
pub enum Device {
    Relative,
    Absolute,
}

/// One thing for the daemon to do on behalf of a request.
#[derive(Debug, Clone, Copy, PartialEq, Eq, Structural)]
pub enum Action {
    /// Ask the compositor to put the cursor at `(x, y)`.
    WarpCursor { x: i32, y: i32 },
    /// Report the position `(x, y)` on the absolute device.
    MoveAbsolute { x: i32, y: i32 },
    /// Report the motion `(dx, dy)` on the relative device.
    MoveRelative { dx: i32, dy: i32 },
    /// Report one wheel movement on the relative device.
    Scroll { horizontal: i32, vertical: i32 },
    /// Run the synthetic-click utility once for `button`.
    SyntheticClick { button: MouseButton },
    /// Report `button` in `state` on the relative device.
    Button { button: MouseButton, state: MouseButtonState },
    /// Do nothing for `millis` milliseconds.
    Sleep { millis: u64 },
}

impl Action {
    /// The device that the action writes to, if it writes events at all.
    pub open spec fn spec_device(self) -> Option<Device> {
        match self {
            Action::MoveAbsolute { .. } => Some(Device::Absolute),
            Action::MoveRelative { .. } | Action::Scroll { .. } | Action::Button { .. } => Some(
                Device::Relative,
            ),
            _ => None,
        }
    }

    /// The events that the action writes, in order; none for an action that
    /// writes to no device.
    pub open spec fn spec_events(self) -> Seq<InputEvent> {
        match self {
            Action::MoveAbsolute { x, y } => seq![
                spec_axis_event(Axis::AbsoluteX, x),
                spec_axis_event(Axis::AbsoluteY, y),
                spec_sync_event(),
            ],
            Action::MoveRelative { dx, dy } => seq![
                spec_axis_event(Axis::RelativeX, dx),
                spec_axis_event(Axis::RelativeY, dy),
                spec_sync_event(),
            ],
            Action::Scroll { horizontal, vertical } => seq![
                spec_axis_event(Axis::HorizontalWheel, horizontal),
                spec_axis_event(Axis::Wheel, vertical),
                spec_sync_event(),
            ],
            Action::Button { button, state } => seq![
                spec_button_event(button, state),
                spec_sync_event(),
            ],
            _ => Seq::empty(),
        }
    }

    #[verifier::when_used_as_spec(spec_device)]
    pub fn device(self) -> (device: Option<Device>)
        ensures
            device == self.spec_device(),
    {
        match self {
            Action::MoveAbsolute { .. } => Some(Device::Absolute),
            Action::MoveRelative { .. } => Some(Device::Relative),
            Action::Scroll { .. } => Some(Device::Relative),
            Action::Button { .. } => Some(Device::Relative),
            _ => None,
        }
    }

    /// The events to write for this action.
    pub fn events(self) -> (events: Vec<InputEvent>)
        ensures
            events@ == self.spec_events(),
    {
        let mut events: Vec<InputEvent> = Vec::new();
        match self {
            Action::MoveAbsolute { x, y } => {
                events.push(axis_event(Axis::AbsoluteX, x));
                events.push(axis_event(Axis::AbsoluteY, y));
                events.push(sync_event());
            },
            Action::MoveRelative { dx, dy } => {
                events.push(axis_event(Axis::RelativeX, dx));
                events.push(axis_event(Axis::RelativeY, dy));
                events.push(sync_event());
            },
            Action::Scroll { horizontal, vertical } => {
                events.push(axis_event(Axis::HorizontalWheel, horizontal));
                events.push(axis_event(Axis::Wheel, vertical));
                events.push(sync_event());
            },
            Action::Button { button, state } => {
                events.push(button_event(button, state));
                events.push(sync_event());
            },
            _ => {},
        }
        assert(events@ =~= self.spec_events());
        events
    }
}

/// Why a request could not be carried out.
#[derive(Debug, Clone, PartialEq, Eq)]
pub enum MouseError {
    /// A coordinate times the scale factor leaves the 32-bit range of the
    /// devices.
    OutOfRange,
    /// A device refused the events; the text says why.
    Device(String),
}

/// What became of the last action.
#[derive(Debug, Clone, PartialEq, Eq)]
pub enum Outcome {
    /// The action was carried out.
    Success,
    /// The command could not be run or exited with an error, or the device
    /// refused the events; the text says why.
    Failure(String),
}

/// Where a job stands: the action that it waits for.
#[derive(Debug, Clone, Copy, PartialEq, Eq, Structural)]
pub enum Phase {
    /// The compositor was asked to warp the cursor.
    Warp,
    /// The position was written to the absolute device.
    AbsoluteEmit,
    /// The motion was written to the relative device.
    RelativeEmit,
    /// The pause after the move.
    MoveSettle,
    /// The pause between the move and the click.
    PreClickSettle,
    /// Synthetic click number `attempt`, counted from 0.
    Synthetic { attempt: u32 },
    /// The pause after synthetic click number `attempt`.
    SyntheticSettle { attempt: u32 },
    /// The extra pause before synthetic click number `attempt + 1`.
    RepeatGap { attempt: u32 },
    /// Button state `index` of raw round `round` was written.
    RawEmit { round: u32, index: usize },
    /// The pause after button state `index` of raw round `round`.
    RawSettle { round: u32, index: usize },
    /// The pause that ends a click.
    FinalSettle,
    /// The wheel movement was written.
    ScrollEmit,
}

/// A request in progress.
#[derive(Debug, PartialEq, Eq)]
pub struct Job {
    /// Horizontal target, already scaled.
    pub x: i32,
    /// Vertical target, already scaled.
    pub y: i32,
    /// Whether the job goes on to click once the move has settled.
    pub click: bool,
    /// The button to click.
    pub button: MouseButton,
    /// The states to put the button through, in order, once per repeat.
    pub states: Vec<MouseButtonState>,
    /// How many times to click.
    pub repeat: u32,
    pub phase: Phase,
}

/// One turn of a job: the next action with the job that awaits its outcome,
/// or the end of the request.
#[derive(Debug, PartialEq, Eq)]
pub enum Step {
    Perform(Job, Action),
    Finish(Result<(), MouseError>),
}

/// A job as a mathematical value.
pub struct JobView {
    pub x: i32,
    pub y: i32,
    pub click: bool,
    pub button: MouseButton,
    pub states: Seq<MouseButtonState>,
    pub repeat: u32,
    pub phase: Phase,
}

/// A turn as a mathematical value.
pub enum StepView {
    Perform(JobView, Action),
    Finish(Result<(), MouseError>),
}

impl View for Job {
    type V = JobView;

    open spec fn view(&self) -> JobView {
        JobView {
            x: self.x,
            y: self.y,
            click: self.click,
            button: self.button,
            states: self.states@,
            repeat: self.repeat,
            phase: self.phase,
        }
    }
}

impl View for Step {
    type V = StepView;

    open spec fn view(&self) -> StepView {
        match self {
            Step::Perform(job, action) => StepView::Perform(job@, *action),
            Step::Finish(result) => StepView::Finish(*result),
        }
    }
}

impl JobView {
    /// The turn that starts the synthetic click number `attempt`, or ends the
    /// click when all have been made.
    pub open spec fn synthetic(self, attempt: int) -> StepView {
        if 0 <= attempt < self.repeat {
            StepView::Perform(
                JobView { phase: Phase::Synthetic { attempt: attempt as u32 }, ..self },
                Action::SyntheticClick { button: self.button },
            )
        } else {
            self.final_settle()
        }
    }

    /// The turn that writes button state `index` of raw round `round`, or
    /// ends the click when the rounds are over or there is no such state.
    pub open spec fn raw(self, round: int, index: int) -> StepView {
        if 0 <= round < self.repeat && 0 <= index < self.states.len() {
            StepView::Perform(
                JobView {
                    phase: Phase::RawEmit { round: round as u32, index: index as usize },
                    ..self
                },
                Action::Button { button: self.button, state: self.states[index] },
            )
        } else {
            self.final_settle()
        }
    }

    /// The turn that pauses at the end of a click.
    pub open spec fn final_settle(self) -> StepView {
        StepView::Perform(
            JobView { phase: Phase::FinalSettle, ..self },
            Action::Sleep { millis: FINAL_SETTLE_MS },
        )
    }

    /// The turn that pauses after a move.
    pub open spec fn move_settle(self, millis: u64) -> StepView {
        StepView::Perform(JobView { phase: Phase::MoveSettle, ..self }, Action::Sleep { millis })
    }

    /// The turn that follows when the last action had `outcome`.
    ///
    /// A move: the warp, and the absolute device only if the warp failed; or
    /// the relative device. A click: the move, a pause, then synthetic
    /// clicks until one fails, from where on the raw button states are
    /// written instead, every state once per repeat; and a last pause. A
    /// device that refuses events ends the request with its error.
    pub open spec fn advance(self, outcome: Outcome) -> StepView {
        match self.phase {
            Phase::Warp => match outcome {
                Outcome::Success => self.move_settle(ABSOLUTE_SETTLE_MS),
                Outcome::Failure(_) => StepView::Perform(
                    JobView { phase: Phase::AbsoluteEmit, ..self },
                    Action::MoveAbsolute { x: self.x, y: self.y },
                ),
            },
            Phase::AbsoluteEmit => match outcome {
                Outcome::Success => self.move_settle(ABSOLUTE_SETTLE_MS),
                Outcome::Failure(cause) => StepView::Finish(Err(MouseError::Device(cause))),
            },
            Phase::RelativeEmit => match outcome {
                Outcome::Success => self.move_settle(RELATIVE_SETTLE_MS),
                Outcome::Failure(cause) => StepView::Finish(Err(MouseError::Device(cause))),
            },
            Phase::MoveSettle => if self.click {
                StepView::Perform(
                    JobView { phase: Phase::PreClickSettle, ..self },
                    Action::Sleep { millis: PRE_CLICK_SETTLE_MS },
                )
            } else {
                StepView::Finish(Ok(()))
            },
            Phase::PreClickSettle => self.synthetic(0),
            Phase::Synthetic { attempt } => match outcome {
                Outcome::Success => StepView::Perform(
                    JobView { phase: Phase::SyntheticSettle { attempt }, ..self },
                    Action::Sleep { millis: SYNTHETIC_SETTLE_MS },
                ),
                Outcome::Failure(_) => self.raw(0, 0),
            },
            Phase::SyntheticSettle { attempt } => if attempt + 1 < self.repeat {
                StepView::Perform(
                    JobView { phase: Phase::RepeatGap { attempt }, ..self },
                    Action::Sleep { millis: REPEAT_GAP_MS },
                )
            } else {
                self.final_settle()
            },
            Phase::RepeatGap { attempt } => self.synthetic(attempt + 1),
            Phase::RawEmit { round, index } => match outcome {
                Outcome::Success => StepView::Perform(
                    JobView { phase: Phase::RawSettle { round, index }, ..self },
                    Action::Sleep { millis: RAW_SETTLE_MS },
                ),
                Outcome::Failure(cause) => StepView::Finish(Err(MouseError::Device(cause))),
            },
            Phase::RawSettle { round, index } => if index + 1 < self.states.len() {
                self.raw(round as int, index + 1)
            } else {
                self.raw(round + 1, 0)
            },
            Phase::FinalSettle => StepView::Finish(Ok(())),
            Phase::ScrollEmit => match outcome {
                Outcome::Success => StepView::Finish(Ok(())),
                Outcome::Failure(cause) => StepView::Finish(Err(MouseError::Device(cause))),
            },
        }
    }
}

impl JobView {
    /// How many raw button events are still to be written from state `index`
    /// of round `round` on.
    pub open spec fn raw_left(self, round: int, index: int) -> nat {
        if 0 <= round < self.repeat {
            ((self.repeat - round - 1) * self.states.len() + if 0 <= index < self.states.len() {
                self.states.len() - index
            } else {
                0
            }) as nat
        } else {
            0
        }
    }

    /// How many synthetic clicks are still to be made from number `attempt`
    /// on.
    pub open spec fn synthetic_left(self, attempt: int) -> nat {
        if 0 <= attempt < self.repeat {
            (self.repeat - attempt) as nat
        } else {
            0
        }
    }

    /// A bound on the number of actions that are still to come.
    pub open spec fn turns_left(self) -> nat {
        let raw_all = 2 * (self.repeat * self.states.len());
        let click_all = raw_all + 3 * self.repeat;
        match self.phase {
            Phase::Warp => (click_all + 7) as nat,
            Phase::AbsoluteEmit => (click_all + 6) as nat,
            Phase::RelativeEmit => (click_all + 6) as nat,
            Phase::MoveSettle => (click_all + 5) as nat,
            Phase::PreClickSettle => (click_all + 4) as nat,
            Phase::Synthetic { attempt } => (raw_all + 3 * self.synthetic_left(attempt as int)
                + 3) as nat,
            Phase::SyntheticSettle { attempt } => (raw_all + 3 * self.synthetic_left(
                attempt as int,
            ) + 2) as nat,
            Phase::RepeatGap { attempt } => (raw_all + 3 * self.synthetic_left(attempt as int)
                + 1) as nat,
            Phase::RawEmit { round, index } => 2 * self.raw_left(round as int, index + 1) + 2,
            Phase::RawSettle { round, index } => 2 * self.raw_left(round as int, index + 1) + 1,
            Phase::FinalSettle => 0,
            Phase::ScrollEmit => 0,
        }
    }
}

/// Every turn brings a job closer to its end: the bound on the actions still
/// to come shrinks with each action, so no request runs forever. This holds
/// of every job whose button states fit a vector.
pub proof fn lemma_advance_makes_progress(job: JobView, outcome: Outcome)
    requires
        job.states.len() <= usize::MAX,
    ensures
        job.advance(outcome) matches StepView::Perform(next, _) ==> next.turns_left()
            < job.turns_left(),
{
    let rounds = job.repeat as int;
    let width = job.states.len() as int;
    assert(rounds * width >= 0) by (nonlinear_arith)
        requires
            rounds >= 0,
            width >= 0,
    ;
    match job.phase {
        Phase::Synthetic { attempt } => {
            if outcome is Failure && rounds > 0 && width > 0 {
                assert((rounds - 0 - 1) * width + width == rounds * width) by (nonlinear_arith);
            }
        },
        Phase::RawSettle { round, index } => {
            if round < rounds {
                assert((rounds - round - 1) * width >= 0) by (nonlinear_arith)
                    requires
                        rounds - round - 1 >= 0,
                        width >= 0,
                ;
            }
            if index + 1 >= width && round + 1 < rounds && width > 0 {
                assert((rounds - (round + 1) - 1) * width + width == (rounds - round - 1)
                    * width) by (nonlinear_arith);
                assert((rounds - (round + 1) - 1) * width >= 0) by (nonlinear_arith)
                    requires
                        rounds - (round + 1) - 1 >= 0,
                        width >= 0,
                ;
            }
        },
        Phase::RawEmit { round, index } => {
            if round < rounds {
                assert((rounds - round - 1) * width >= 0) by (nonlinear_arith)
                    requires
                        rounds - round - 1 >= 0,
                        width >= 0,
                ;
            }
        },
        _ => {},
    }
}

/// A scroll is one wheel movement on the relative device, the horizontal
/// amount before the vertical, and whatever comes of it ends the request:
/// nothing is tried in its place.
pub proof fn lemma_scroll_is_one_action(mouse: VirtualMouse, x: i32, y: i32, outcome: Outcome)
    ensures
        mouse.spec_scroll(x, y) matches StepView::Perform(job, action) && {
            &&& action.spec_device() == Some(Device::Relative)
            &&& action.spec_events() == seq![
                (InputEvent { kind: 2, code: 6, value: x }),
                (InputEvent { kind: 2, code: 8, value: y }),
                (InputEvent { kind: 0, code: 0, value: 0 }),
            ]
            &&& job.advance(outcome) == StepView::Finish(
                match outcome {
                    Outcome::Success => Ok(()),
                    Outcome::Failure(cause) => Err(MouseError::Device(cause)),
                },
            )
        },
{
}

/// A click starts as the move to its place does, and so does everything up
/// to the pause after the move.
pub proof fn lemma_click_moves_first(
    mouse: VirtualMouse,
    x: i32,
    y: i32,
    button: MouseButton,
    states: Seq<MouseButtonState>,
    repeat: u32,
    absolute: bool,
)
    ensures
        match (mouse.spec_click(x, y, button, states, repeat, absolute), mouse.spec_move(
            x,
            y,
            absolute,
        )) {
            (StepView::Perform(click, first), StepView::Perform(plain, same)) => first == same
                && click.phase == plain.phase && click.x == plain.x && click.y == plain.y,
            (StepView::Finish(refused), StepView::Finish(same)) => refused == same,
            _ => false,
        },
{
}

impl Job {
    fn synthetic(self, attempt: u32) -> (step: Step)
        ensures
            step@ == self@.synthetic(attempt as int),
    {
        if attempt < self.repeat {
            let button = self.button;
            Step::Perform(
                Job { phase: Phase::Synthetic { attempt }, ..self },
                Action::SyntheticClick { button },
            )
        } else {
            self.final_settle()
        }
    }

    fn raw(self, round: u32, index: usize) -> (step: Step)
        ensures
            step@ == self@.raw(round as int, index as int),
    {
        if round < self.repeat && index < self.states.len() {
            let action = Action::Button { button: self.button, state: self.states[index] };
            Step::Perform(Job { phase: Phase::RawEmit { round, index }, ..self }, action)
        } else {
            self.final_settle()
        }
    }

    fn final_settle(self) -> (step: Step)
        ensures
            step@ == self@.final_settle(),
    {
        Step::Perform(
            Job { phase: Phase::FinalSettle, ..self },
            Action::Sleep { millis: FINAL_SETTLE_MS },
        )
    }

    fn move_settle(self, millis: u64) -> (step: Step)
        ensures
            step@ == self@.move_settle(millis),
    {
        Step::Perform(Job { phase: Phase::MoveSettle, ..self }, Action::Sleep { millis })
    }

    /// Takes the outcome of the action that the job waited for and says what
    /// comes next.
    pub fn advance(self, outcome: Outcome) -> (step: Step)
        ensures
            step@ == self@.advance(outcome),
    {
        match self.phase {
            Phase::Warp => match outcome {
                Outcome::Success => self.move_settle(ABSOLUTE_SETTLE_MS),
                Outcome::Failure(_) => {
                    let action = Action::MoveAbsolute { x: self.x, y: self.y };
                    Step::Perform(Job { phase: Phase::AbsoluteEmit, ..self }, action)
                },
            },
            Phase::AbsoluteEmit => match outcome {
                Outcome::Success => self.move_settle(ABSOLUTE_SETTLE_MS),
                Outcome::Failure(cause) => Step::Finish(Err(MouseError::Device(cause))),
            },
            Phase::RelativeEmit => match outcome {
                Outcome::Success => self.move_settle(RELATIVE_SETTLE_MS),
                Outcome::Failure(cause) => Step::Finish(Err(MouseError::Device(cause))),
            },
            Phase::MoveSettle => {
                if self.click {
                    Step::Perform(
                        Job { phase: Phase::PreClickSettle, ..self },
                        Action::Sleep { millis: PRE_CLICK_SETTLE_MS },
                    )
                } else {
                    Step::Finish(Ok(()))
                }
            },
            Phase::PreClickSettle => self.synthetic(0),
            Phase::Synthetic { attempt } => match outcome {
                Outcome::Success => Step::Perform(
                    Job { phase: Phase::SyntheticSettle { attempt }, ..self },
                    Action::Sleep { millis: SYNTHETIC_SETTLE_MS },
                ),
                Outcome::Failure(_) => self.raw(0, 0),
            },
            Phase::SyntheticSettle { attempt } => {
                if attempt < self.repeat && attempt + 1 < self.repeat {
                    Step::Perform(
                        Job { phase: Phase::RepeatGap { attempt }, ..self },
                        Action::Sleep { millis: REPEAT_GAP_MS },
                    )
                } else {
                    self.final_settle()
                }
            },
            Phase::RepeatGap { attempt } => {
                if attempt < self.repeat {
                    self.synthetic(attempt + 1)
                } else {
                    self.final_settle()
                }
            },
            Phase::RawEmit { round, index } => match outcome {
                Outcome::Success => Step::Perform(
                    Job { phase: Phase::RawSettle { round, index }, ..self },
                    Action::Sleep { millis: RAW_SETTLE_MS },
                ),
                Outcome::Failure(cause) => Step::Finish(Err(MouseError::Device(cause))),
            },
            Phase::RawSettle { round, index } => {
                if index < self.states.len() && index + 1 < self.states.len() {
                    self.raw(round, index + 1)
                } else if round < self.repeat {
                    self.raw(round + 1, 0)
                } else {
                    self.final_settle()
                }
            },
            Phase::FinalSettle => Step::Finish(Ok(())),
            Phase::ScrollEmit => match outcome {
                Outcome::Success => Step::Finish(Ok(())),
                Outcome::Failure(cause) => Step::Finish(Err(MouseError::Device(cause))),
            },
        }
    }
}

/// The daemon's view of its two virtual devices: the factor between the
/// coordinates of a request and those of the devices, and the range of the
/// absolute device.
#[derive(Debug, Clone, Copy, PartialEq, Eq, Structural)]
pub struct VirtualMouse {
    pub scale_factor: i32,
    /// Largest horizontal position of the absolute device.
    pub max_x: i32,
    /// Largest vertical position of the absolute device.
    pub max_y: i32,
}

/// `value * scale`, if it is a 32-bit number.
pub open spec fn spec_scaled(value: i32, scale: i32) -> Option<i32> {
    if i32::MIN <= value * scale <= i32::MAX {
        Some((value * scale) as i32)
    } else {
        None
    }
}

/// `value * scale`, if it is a 32-bit number.
pub fn scaled(value: i32, scale: i32) -> (product: Option<i32>)
    ensures
        product == spec_scaled(value, scale),
{
    assert(-0x4000_0000_0000_0000 <= value * scale <= 0x4000_0000_0000_0000) by (nonlinear_arith)
        requires
            -0x8000_0000 <= value <= 0x8000_0000,
            -0x8000_0000 <= scale <= 0x8000_0000,
    ;
    let wide: i64 = (value as i64) * (scale as i64);
    if wide < i32::MIN as i64 || wide > i32::MAX as i64 {
        None
    } else {
        Some(wide as i32)
    }
}

impl VirtualMouse {
    /// The devices for a screen of the given size: the absolute device
    /// ranges over the screen's size times the scale factor.
    pub open spec fn spec_new(screen_width: i32, screen_height: i32, scale_factor: i32) -> Result<
        VirtualMouse,
        MouseError,
    > {
        match (spec_scaled(screen_width, scale_factor), spec_scaled(screen_height, scale_factor)) {
            (Some(max_x), Some(max_y)) => Ok(VirtualMouse { scale_factor, max_x, max_y }),
            _ => Err(MouseError::OutOfRange),
        }
    }

    /// The first turn of a move to `(x, y)`, or by it where `absolute` is
    /// false: both coordinates are scaled; an absolute move starts with the
    /// compositor's cursor warp, a relative one goes to the relative device.
    /// With `click`, the job goes on to click `button` once the move has
    /// settled.
    pub open spec fn spec_begin(
        self,
        x: i32,
        y: i32,
        absolute: bool,
        click: bool,
        button: MouseButton,
        states: Seq<MouseButtonState>,
        repeat: u32,
    ) -> StepView {
        match (spec_scaled(x, self.scale_factor), spec_scaled(y, self.scale_factor)) {
            (Some(x), Some(y)) => if absolute {
                StepView::Perform(
                    JobView { x, y, click, button, states, repeat, phase: Phase::Warp },
                    Action::WarpCursor { x, y },
                )
            } else {
                StepView::Perform(
                    JobView { x, y, click, button, states, repeat, phase: Phase::RelativeEmit },
                    Action::MoveRelative { dx: x, dy: y },
                )
            },
            _ => StepView::Finish(Err(MouseError::OutOfRange)),
        }
    }

    /// The first turn of a scroll: the wheel movement, unscaled.
    pub open spec fn spec_scroll(self, x: i32, y: i32) -> StepView {
        StepView::Perform(
            JobView {
                x,
                y,
                click: false,
                button: MouseButton::Left,
                states: Seq::empty(),
                repeat: 0,
                phase: Phase::ScrollEmit,
            },
            Action::Scroll { horizontal: x, vertical: y },
        )
    }

    /// The first turn of a move.
    pub open spec fn spec_move(self, x: i32, y: i32, absolute: bool) -> StepView {
        self.spec_begin(x, y, absolute, false, MouseButton::Left, Seq::empty(), 0)
    }

    /// The first turn of a click: that of the move to its place.
    pub open spec fn spec_click(
        self,
        x: i32,
        y: i32,
        button: MouseButton,
        states: Seq<MouseButtonState>,
        repeat: u32,
        absolute: bool,
    ) -> StepView {
        self.spec_begin(x, y, absolute, true, button, states, repeat)
    }

    /// The devices for a screen of the given size, if the range of the
    /// absolute device fits 32 bits.
    pub fn new(screen_width: i32, screen_height: i32, scale_factor: i32) -> (mouse: Result<
        VirtualMouse,
        MouseError,
    >)
        ensures
            mouse == Self::spec_new(screen_width, screen_height, scale_factor),
    {
        match (scaled(screen_width, scale_factor), scaled(screen_height, scale_factor)) {
            (Some(max_x), Some(max_y)) => Ok(VirtualMouse { scale_factor, max_x, max_y }),
            _ => Err(MouseError::OutOfRange),
        }
    }

    fn begin(
        &self,
        x: i32,
        y: i32,
        absolute: bool,
        click: bool,
        button: MouseButton,
        states: Vec<MouseButtonState>,
        repeat: u32,
    ) -> (step: Step)
        ensures
            step@ == self.spec_begin(x, y, absolute, click, button, states@, repeat),
    {
        match (scaled(x, self.scale_factor), scaled(y, self.scale_factor)) {
            (Some(x), Some(y)) => {
                if absolute {
                    Step::Perform(
                        Job { x, y, click, button, states, repeat, phase: Phase::Warp },
                        Action::WarpCursor { x, y },
                    )
                } else {
                    Step::Perform(
                        Job { x, y, click, button, states, repeat, phase: Phase::RelativeEmit },
                        Action::MoveRelative { dx: x, dy: y },
                    )
                }
            },
            _ => Step::Finish(Err(MouseError::OutOfRange)),
        }
    }

    /// Starts a scroll: one wheel movement on the relative device, and
    /// nothing else.
    pub fn scroll(&self, x: i32, y: i32) -> (step: Step)
        ensures
            step@ == self.spec_scroll(x, y),
    {
        Step::Perform(
            Job {
                x,
                y,
                click: false,
                button: MouseButton::Left,
                states: Vec::new(),
                repeat: 0,
                phase: Phase::ScrollEmit,
            },
            Action::Scroll { horizontal: x, vertical: y },
        )
    }

    /// Starts a move to `(x, y)`, or by `(x, y)` where `absolute` is false.
    pub fn move_pointer(&self, x: i32, y: i32, absolute: bool) -> (step: Step)
        ensures
            step@ == self.spec_move(x, y, absolute),
    {
        self.begin(x, y, absolute, false, MouseButton::Left, Vec::new(), 0)
    }

    /// Starts a click at `(x, y)`: the move comes first.
    pub fn click(
        &self,
        x: i32,
        y: i32,
        button: MouseButton,
        button_states: Vec<MouseButtonState>,
        repeat: u32,
        absolute: bool,
    ) -> (step: Step)
        ensures
            step@ == self.spec_click(x, y, button, button_states@, repeat, absolute),
    {
        self.begin(x, y, absolute, true, button, button_states, repeat)
    }
}

} // verus!
