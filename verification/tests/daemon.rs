use hintsx::daemon::{
    begin, button_from_code, response_for, state_from_code, states_from_codes, Session, Turn,
    OVERLAY_CLOSE_MS,
};
use hintsx::ipc::{MouseMode, Request, Response};
use hintsx::mouse::{
    Action, InputEvent, MouseButton, MouseButtonState, MouseError, Outcome, VirtualMouse,
};

fn mouse() -> VirtualMouse {
    VirtualMouse::new(1920, 1080, 1).unwrap()
}

/// Serves a request to its end. `answer` decides how each action goes.
/// Returns the actions in order and the response.
fn serve(request: Request, mut answer: impl FnMut(&Action) -> Outcome) -> (Vec<Action>, Response) {
    let mouse = mouse();
    let mut actions = Vec::new();
    let mut turn = begin(&mouse, request);
    loop {
        match turn {
            Turn::Perform(session, action) => {
                actions.push(action);
                assert!(actions.len() < 10_000);
                turn = session.advance(&mouse, answer(&action));
            }
            Turn::Reply(response) => return (actions, response),
        }
    }
}

#[test]
fn scroll_request_emits_one_wheel_pair() {
    let (actions, response) = serve(Request::Scroll { x: 0, y: -5 }, |_| Outcome::Success);
    assert_eq!(actions, vec![Action::Scroll { horizontal: 0, vertical: -5 }]);
    assert_eq!(
        actions[0].events(),
        vec![
            InputEvent { kind: 2, code: 6, value: 0 },
            InputEvent { kind: 2, code: 8, value: -5 },
            InputEvent { kind: 0, code: 0, value: 0 },
        ]
    );
    assert_eq!(response, Response::Done);
}

#[test]
fn scroll_request_reports_a_device_error() {
    let (actions, response) =
        serve(Request::Scroll { x: 1, y: 1 }, |_| Outcome::Failure("EBADF".to_string()));
    assert_eq!(actions.len(), 1);
    assert_eq!(response, Response::Error("EBADF".to_string()));
}

#[test]
fn move_request_is_served_by_the_move() {
    let (actions, response) =
        serve(Request::Move { x: 10, y: 20, absolute: true }, |_| Outcome::Success);
    assert_eq!(
        actions,
        vec![Action::WarpCursor { x: 10, y: 20 }, Action::Sleep { millis: 50 }]
    );
    assert_eq!(response, Response::Done);
}

#[test]
fn move_request_out_of_range_is_an_error_response() {
    let mouse = VirtualMouse::new(10, 10, 4).unwrap();
    let turn = begin(&mouse, Request::Move { x: i32::MAX, y: 0, absolute: false });
    assert_eq!(
        turn,
        Turn::Reply(Response::Error("scaled coordinates are out of range".to_string()))
    );
}

#[test]
fn click_request_waits_for_the_overlay_first() {
    let request = Request::Click {
        x: 100,
        y: 200,
        button: 0,
        button_states: vec![1, 0],
        repeat: 2,
        absolute: true,
    };
    let (actions, response) = serve(request, |_| Outcome::Success);
    assert_eq!(OVERLAY_CLOSE_MS, 500);
    assert_eq!(
        actions,
        vec![
            Action::Sleep { millis: 500 },
            Action::WarpCursor { x: 100, y: 200 },
            Action::Sleep { millis: 50 },
            Action::Sleep { millis: 100 },
            Action::SyntheticClick { button: MouseButton::Left },
            Action::Sleep { millis: 100 },
            Action::Sleep { millis: 50 },
            Action::SyntheticClick { button: MouseButton::Left },
            Action::Sleep { millis: 100 },
            Action::Sleep { millis: 200 },
        ]
    );
    assert_eq!(response, Response::Done);
}

#[test]
fn click_request_maps_button_and_states() {
    let request = Request::Click {
        x: 1,
        y: 2,
        button: 2,
        button_states: vec![1, 0, 7],
        repeat: 1,
        absolute: false,
    };
    let (actions, response) = serve(request, |action| match action {
        Action::SyntheticClick { .. } => Outcome::Failure("missing".to_string()),
        _ => Outcome::Success,
    });
    let buttons: Vec<Action> =
        actions.into_iter().filter(|a| matches!(a, Action::Button { .. })).collect();
    assert_eq!(
        buttons,
        vec![
            Action::Button { button: MouseButton::Right, state: MouseButtonState::Down },
            Action::Button { button: MouseButton::Right, state: MouseButtonState::Up },
            Action::Button { button: MouseButton::Right, state: MouseButtonState::Down },
        ]
    );
    assert_eq!(response, Response::Done);
}

#[test]
fn click_request_out_of_range_fails_after_the_wait() {
    let mouse = VirtualMouse::new(10, 10, 4).unwrap();
    let request = Request::Click {
        x: i32::MAX,
        y: 0,
        button: 0,
        button_states: vec![1, 0],
        repeat: 1,
        absolute: true,
    };
    match begin(&mouse, request) {
        Turn::Perform(session, action) => {
            assert_eq!(action, Action::Sleep { millis: 500 });
            assert_eq!(
                session,
                Session::Settling {
                    x: i32::MAX,
                    y: 0,
                    button: MouseButton::Left,
                    states: vec![MouseButtonState::Down, MouseButtonState::Up],
                    repeat: 1,
                    absolute: true,
                }
            );
            assert_eq!(
                session.advance(&mouse, Outcome::Success),
                Turn::Reply(Response::Error("scaled coordinates are out of range".to_string()))
            );
        }
        Turn::Reply(_) => panic!("the click must wait first"),
    }
}

#[test]
fn reserved_request_is_answered_at_once() {
    let request = Request::DoMouseAction { key: "k".to_string(), mode: MouseMode::Scroll };
    let (actions, response) = serve(request, |_| Outcome::Success);
    assert!(actions.is_empty());
    assert_eq!(response, Response::Done);
}

#[test]
fn button_numbers() {
    assert_eq!(button_from_code(0), MouseButton::Left);
    assert_eq!(button_from_code(1), MouseButton::Middle);
    assert_eq!(button_from_code(2), MouseButton::Right);
    assert_eq!(button_from_code(3), MouseButton::Left);
    assert_eq!(button_from_code(u16::MAX), MouseButton::Left);
}

#[test]
fn state_numbers() {
    assert_eq!(state_from_code(0), MouseButtonState::Up);
    assert_eq!(state_from_code(1), MouseButtonState::Down);
    assert_eq!(state_from_code(-1), MouseButtonState::Down);
    assert_eq!(state_from_code(i32::MAX), MouseButtonState::Down);
    assert_eq!(
        states_from_codes(&vec![1, 0, 0, 5]),
        vec![
            MouseButtonState::Down,
            MouseButtonState::Up,
            MouseButtonState::Up,
            MouseButtonState::Down
        ]
    );
    assert!(states_from_codes(&vec![]).is_empty());
}

#[test]
fn responses() {
    assert_eq!(response_for(Ok(())), Response::Done);
    assert_eq!(
        response_for(Err(MouseError::Device("uinput closed".to_string()))),
        Response::Error("uinput closed".to_string())
    );
    assert_eq!(
        response_for(Err(MouseError::OutOfRange)),
        Response::Error("scaled coordinates are out of range".to_string())
    );
}
