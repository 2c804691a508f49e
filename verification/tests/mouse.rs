use hintsx::mouse::{
    scaled, Action, Device, InputEvent, Job, MouseButton, MouseButtonState, MouseError, Outcome,
    Phase, Step, VirtualMouse, ABSOLUTE_SETTLE_MS, FINAL_SETTLE_MS, PRE_CLICK_SETTLE_MS,
    RAW_SETTLE_MS, RELATIVE_SETTLE_MS, REPEAT_GAP_MS, SYNTHETIC_SETTLE_MS,
};

fn mouse() -> VirtualMouse {
    VirtualMouse::new(1920, 1080, 1).unwrap()
}

fn failure() -> Outcome {
    Outcome::Failure("no such tool".to_string())
}

/// Runs a job to its end. `answer` decides how each action goes. Returns
/// the actions in order and the result.
fn run(first: Step, mut answer: impl FnMut(&Action) -> Outcome) -> (Vec<Action>, Result<(), MouseError>) {
    let mut actions = Vec::new();
    let mut step = first;
    loop {
        match step {
            Step::Perform(job, action) => {
                actions.push(action);
                assert!(actions.len() < 10_000);
                step = job.advance(answer(&action));
            }
            Step::Finish(result) => return (actions, result),
        }
    }
}

fn sleep(millis: u64) -> Action {
    Action::Sleep { millis }
}

#[test]
fn events_carry_the_kernel_codes() {
    let events = Action::Scroll { horizontal: 3, vertical: -5 }.events();
    assert_eq!(
        events,
        vec![
            InputEvent { kind: 2, code: 6, value: 3 },
            InputEvent { kind: 2, code: 8, value: -5 },
            InputEvent { kind: 0, code: 0, value: 0 },
        ]
    );
    assert_eq!(events[0].kind, evdev::EventType::RELATIVE.0);
    assert_eq!(events[0].code, evdev::RelativeAxisCode::REL_HWHEEL.0);
    assert_eq!(events[1].code, evdev::RelativeAxisCode::REL_WHEEL.0);
    assert_eq!(events[2].kind, evdev::EventType::SYNCHRONIZATION.0);

    let events = Action::MoveRelative { dx: -7, dy: 9 }.events();
    assert_eq!(
        events,
        vec![
            InputEvent { kind: 2, code: 0, value: -7 },
            InputEvent { kind: 2, code: 1, value: 9 },
            InputEvent { kind: 0, code: 0, value: 0 },
        ]
    );
    assert_eq!(events[0].code, evdev::RelativeAxisCode::REL_X.0);
    assert_eq!(events[1].code, evdev::RelativeAxisCode::REL_Y.0);

    let events = Action::MoveAbsolute { x: 640, y: 480 }.events();
    assert_eq!(
        events,
        vec![
            InputEvent { kind: 3, code: 0, value: 640 },
            InputEvent { kind: 3, code: 1, value: 480 },
            InputEvent { kind: 0, code: 0, value: 0 },
        ]
    );
    assert_eq!(events[0].kind, evdev::EventType::ABSOLUTE.0);
    assert_eq!(events[0].code, evdev::AbsoluteAxisCode::ABS_X.0);
    assert_eq!(events[1].code, evdev::AbsoluteAxisCode::ABS_Y.0);
}

#[test]
fn button_events_carry_the_key_codes() {
    let cases = [
        (MouseButton::Left, 0x110, evdev::KeyCode::BTN_LEFT),
        (MouseButton::Right, 0x111, evdev::KeyCode::BTN_RIGHT),
        (MouseButton::Middle, 0x112, evdev::KeyCode::BTN_MIDDLE),
    ];
    for (button, code, key) in cases {
        assert_eq!(code, key.0);
        assert_eq!(
            Action::Button { button, state: MouseButtonState::Down }.events(),
            vec![
                InputEvent { kind: 1, code, value: 1 },
                InputEvent { kind: 0, code: 0, value: 0 }
            ]
        );
        assert_eq!(
            Action::Button { button, state: MouseButtonState::Up }.events(),
            vec![
                InputEvent { kind: 1, code, value: 0 },
                InputEvent { kind: 0, code: 0, value: 0 }
            ]
        );
    }
    assert_eq!(evdev::EventType::KEY.0, 1);
}

#[test]
fn events_go_through_the_device_records() {
    let press = Action::Button { button: MouseButton::Right, state: MouseButtonState::Down };
    let place = Action::MoveAbsolute { x: 1, y: 2 };
    for event in press.events().into_iter().chain(place.events()) {
        let raw = evdev::InputEvent::new(event.kind, event.code, event.value);
        assert_eq!(raw.event_type().0, event.kind);
        assert_eq!(raw.code(), event.code);
        assert_eq!(raw.value(), event.value);
    }
}

#[test]
fn actions_without_events() {
    assert!(sleep(5).events().is_empty());
    assert!(Action::WarpCursor { x: 1, y: 2 }.events().is_empty());
    assert!(Action::SyntheticClick { button: MouseButton::Left }.events().is_empty());
    assert_eq!(sleep(5).device(), None);
    assert_eq!(Action::WarpCursor { x: 1, y: 2 }.device(), None);
    assert_eq!(Action::SyntheticClick { button: MouseButton::Left }.device(), None);
    assert_eq!(Action::MoveAbsolute { x: 1, y: 2 }.device(), Some(Device::Absolute));
    assert_eq!(Action::MoveRelative { dx: 1, dy: 2 }.device(), Some(Device::Relative));
    assert_eq!(Action::Scroll { horizontal: 1, vertical: 2 }.device(), Some(Device::Relative));
    assert_eq!(
        Action::Button { button: MouseButton::Left, state: MouseButtonState::Up }.device(),
        Some(Device::Relative)
    );
}

#[test]
fn device_range_is_screen_times_scale() {
    assert_eq!(
        VirtualMouse::new(1920, 1080, 2),
        Ok(VirtualMouse { scale_factor: 2, max_x: 3840, max_y: 2160 })
    );
    assert_eq!(VirtualMouse::new(i32::MAX, 1080, 2), Err(MouseError::OutOfRange));
    assert_eq!(VirtualMouse::new(1920, i32::MAX, 2), Err(MouseError::OutOfRange));
    assert_eq!(
        VirtualMouse::new(i32::MAX, i32::MAX, 1),
        Ok(VirtualMouse { scale_factor: 1, max_x: i32::MAX, max_y: i32::MAX })
    );
}

#[test]
fn scaling_stays_in_range() {
    assert_eq!(scaled(100, 3), Some(300));
    assert_eq!(scaled(-100, 3), Some(-300));
    assert_eq!(scaled(0, i32::MIN), Some(0));
    assert_eq!(scaled(i32::MAX, 1), Some(i32::MAX));
    assert_eq!(scaled(i32::MIN, 1), Some(i32::MIN));
    assert_eq!(scaled(i32::MIN, -1), None);
    assert_eq!(scaled(i32::MAX, 2), None);
    assert_eq!(scaled(65536, 32768), None);
    assert_eq!(scaled(-65536, 32768), Some(i32::MIN));
}

#[test]
fn scroll_is_one_wheel_movement() {
    let (actions, result) = run(mouse().scroll(0, -5), |_| Outcome::Success);
    assert_eq!(actions, vec![Action::Scroll { horizontal: 0, vertical: -5 }]);
    assert_eq!(result, Ok(()));
    assert_eq!(
        actions[0].events(),
        vec![
            InputEvent { kind: 2, code: 6, value: 0 },
            InputEvent { kind: 2, code: 8, value: -5 },
            InputEvent { kind: 0, code: 0, value: 0 },
        ]
    );
}

#[test]
fn scroll_is_not_scaled_and_not_retried() {
    let big = VirtualMouse::new(100, 100, 3).unwrap();
    let (actions, result) = run(big.scroll(4, 2), |_| failure());
    assert_eq!(actions, vec![Action::Scroll { horizontal: 4, vertical: 2 }]);
    assert_eq!(result, Err(MouseError::Device("no such tool".to_string())));
}

#[test]
fn absolute_move_warps_and_settles() {
    let (actions, result) = run(mouse().move_pointer(300, 400, true), |_| Outcome::Success);
    assert_eq!(
        actions,
        vec![Action::WarpCursor { x: 300, y: 400 }, sleep(ABSOLUTE_SETTLE_MS)]
    );
    assert_eq!(result, Ok(()));
    assert_eq!(ABSOLUTE_SETTLE_MS, 50);
}

#[test]
fn absolute_move_falls_back_to_the_absolute_device() {
    let (actions, result) = run(mouse().move_pointer(300, 400, true), |action| match action {
        Action::WarpCursor { .. } => failure(),
        _ => Outcome::Success,
    });
    assert_eq!(
        actions,
        vec![
            Action::WarpCursor { x: 300, y: 400 },
            Action::MoveAbsolute { x: 300, y: 400 },
            sleep(50),
        ]
    );
    assert_eq!(result, Ok(()));
}

#[test]
fn absolute_move_fails_when_both_mechanisms_fail() {
    let (actions, result) = run(mouse().move_pointer(300, 400, true), |_| failure());
    assert_eq!(
        actions,
        vec![Action::WarpCursor { x: 300, y: 400 }, Action::MoveAbsolute { x: 300, y: 400 }]
    );
    assert_eq!(result, Err(MouseError::Device("no such tool".to_string())));
}

#[test]
fn move_is_scaled() {
    let big = VirtualMouse::new(100, 100, 2).unwrap();
    let (actions, _) = run(big.move_pointer(30, -40, true), |_| Outcome::Success);
    assert_eq!(actions[0], Action::WarpCursor { x: 60, y: -80 });
    let (actions, _) = run(big.move_pointer(30, -40, false), |_| Outcome::Success);
    assert_eq!(actions[0], Action::MoveRelative { dx: 60, dy: -80 });
}

#[test]
fn move_out_of_range_is_refused() {
    let big = VirtualMouse::new(100, 100, 2).unwrap();
    assert_eq!(big.move_pointer(i32::MAX, 0, true), Step::Finish(Err(MouseError::OutOfRange)));
    assert_eq!(big.move_pointer(0, i32::MIN, false), Step::Finish(Err(MouseError::OutOfRange)));
    assert_eq!(
        big.click(i32::MAX, 0, MouseButton::Left, vec![], 1, true),
        Step::Finish(Err(MouseError::OutOfRange))
    );
}

#[test]
fn relative_move_goes_to_the_relative_device() {
    let (actions, result) = run(mouse().move_pointer(-10, 0, false), |_| Outcome::Success);
    assert_eq!(
        actions,
        vec![Action::MoveRelative { dx: -10, dy: 0 }, sleep(RELATIVE_SETTLE_MS)]
    );
    assert_eq!(result, Ok(()));
    assert_eq!(RELATIVE_SETTLE_MS, 30);
    let (actions, result) = run(mouse().move_pointer(-10, 0, false), |_| failure());
    assert_eq!(actions, vec![Action::MoveRelative { dx: -10, dy: 0 }]);
    assert_eq!(result, Err(MouseError::Device("no such tool".to_string())));
}

#[test]
fn click_uses_the_synthetic_click_when_it_works() {
    let states = vec![MouseButtonState::Down, MouseButtonState::Up];
    let first = mouse().click(100, 200, MouseButton::Left, states, 2, true);
    let (actions, result) = run(first, |_| Outcome::Success);
    assert_eq!(
        actions,
        vec![
            Action::WarpCursor { x: 100, y: 200 },
            sleep(50),
            sleep(PRE_CLICK_SETTLE_MS),
            Action::SyntheticClick { button: MouseButton::Left },
            sleep(SYNTHETIC_SETTLE_MS),
            sleep(REPEAT_GAP_MS),
            Action::SyntheticClick { button: MouseButton::Left },
            sleep(SYNTHETIC_SETTLE_MS),
            sleep(FINAL_SETTLE_MS),
        ]
    );
    assert_eq!(result, Ok(()));
    assert_eq!(
        (PRE_CLICK_SETTLE_MS, SYNTHETIC_SETTLE_MS, REPEAT_GAP_MS, RAW_SETTLE_MS, FINAL_SETTLE_MS),
        (100, 100, 50, 50, 200)
    );
}

#[test]
fn click_falls_back_to_raw_events() {
    let states = vec![MouseButtonState::Down, MouseButtonState::Up];
    let first = mouse().click(100, 200, MouseButton::Right, states, 2, true);
    let (actions, result) = run(first, |action| match action {
        Action::SyntheticClick { .. } => failure(),
        _ => Outcome::Success,
    });
    let down = Action::Button { button: MouseButton::Right, state: MouseButtonState::Down };
    let up = Action::Button { button: MouseButton::Right, state: MouseButtonState::Up };
    assert_eq!(
        actions,
        vec![
            Action::WarpCursor { x: 100, y: 200 },
            sleep(50),
            sleep(100),
            Action::SyntheticClick { button: MouseButton::Right },
            down,
            sleep(RAW_SETTLE_MS),
            up,
            sleep(RAW_SETTLE_MS),
            down,
            sleep(RAW_SETTLE_MS),
            up,
            sleep(RAW_SETTLE_MS),
            sleep(FINAL_SETTLE_MS),
        ]
    );
    assert_eq!(result, Ok(()));
}

#[test]
fn click_abandons_synthetic_clicks_after_a_failure() {
    let states = vec![MouseButtonState::Down, MouseButtonState::Up];
    let first = mouse().click(1, 2, MouseButton::Left, states, 3, false);
    let mut attempts = 0;
    let (actions, result) = run(first, |action| match action {
        Action::SyntheticClick { .. } => {
            attempts += 1;
            if attempts == 2 {
                failure()
            } else {
                Outcome::Success
            }
        }
        _ => Outcome::Success,
    });
    let synthetic = actions.iter().filter(|a| matches!(a, Action::SyntheticClick { .. })).count();
    let raw = actions.iter().filter(|a| matches!(a, Action::Button { .. })).count();
    assert_eq!(synthetic, 2);
    assert_eq!(raw, 6);
    assert_eq!(actions[0], Action::MoveRelative { dx: 1, dy: 2 });
    assert_eq!(actions.last(), Some(&sleep(FINAL_SETTLE_MS)));
    let failed_at = actions
        .iter()
        .rposition(|a| matches!(a, Action::SyntheticClick { .. }))
        .unwrap();
    assert!(actions[failed_at + 1..].iter().all(|a| !matches!(a, Action::SyntheticClick { .. })));
    assert_eq!(result, Ok(()));
}

#[test]
fn click_writes_the_literal_state_sequence() {
    let first = mouse().click(0, 0, MouseButton::Middle, vec![MouseButtonState::Down], 1, false);
    let (actions, result) = run(first, |action| match action {
        Action::SyntheticClick { .. } => failure(),
        _ => Outcome::Success,
    });
    assert_eq!(
        actions,
        vec![
            Action::MoveRelative { dx: 0, dy: 0 },
            sleep(30),
            sleep(100),
            Action::SyntheticClick { button: MouseButton::Middle },
            Action::Button { button: MouseButton::Middle, state: MouseButtonState::Down },
            sleep(50),
            sleep(200),
        ]
    );
    assert_eq!(result, Ok(()));
}

#[test]
fn click_without_repeat_only_moves_and_settles() {
    let states = vec![MouseButtonState::Down, MouseButtonState::Up];
    let first = mouse().click(5, 6, MouseButton::Left, states, 0, true);
    let (actions, result) = run(first, |_| Outcome::Success);
    assert_eq!(
        actions,
        vec![Action::WarpCursor { x: 5, y: 6 }, sleep(50), sleep(100), sleep(200)]
    );
    assert_eq!(result, Ok(()));
}

#[test]
fn click_without_states_has_nothing_to_fall_back_on() {
    let first = mouse().click(5, 6, MouseButton::Left, vec![], 2, true);
    let (actions, result) = run(first, |action| match action {
        Action::SyntheticClick { .. } => failure(),
        _ => Outcome::Success,
    });
    assert_eq!(
        actions,
        vec![
            Action::WarpCursor { x: 5, y: 6 },
            sleep(50),
            sleep(100),
            Action::SyntheticClick { button: MouseButton::Left },
            sleep(200),
        ]
    );
    assert_eq!(result, Ok(()));
}

#[test]
fn click_ends_when_the_device_refuses() {
    let states = vec![MouseButtonState::Down, MouseButtonState::Up];
    let first = mouse().click(5, 6, MouseButton::Left, states, 2, true);
    let (actions, result) = run(first, |action| match action {
        Action::SyntheticClick { .. } | Action::Button { .. } => failure(),
        _ => Outcome::Success,
    });
    assert_eq!(actions.len(), 5);
    assert_eq!(
        actions[4],
        Action::Button { button: MouseButton::Left, state: MouseButtonState::Down }
    );
    assert_eq!(result, Err(MouseError::Device("no such tool".to_string())));
}

#[test]
fn click_ends_when_the_move_fails() {
    let states = vec![MouseButtonState::Down];
    let first = mouse().click(5, 6, MouseButton::Left, states, 2, true);
    let (actions, result) = run(first, |_| failure());
    assert_eq!(actions.len(), 2);
    assert_eq!(result, Err(MouseError::Device("no such tool".to_string())));
}

#[test]
fn every_job_ends_within_its_bound() {
    for repeat in 0..4u32 {
        for states in 0..3usize {
            for fail_from in 0..5u32 {
                let first = mouse().click(
                    1,
                    1,
                    MouseButton::Left,
                    vec![MouseButtonState::Down; states],
                    repeat,
                    true,
                );
                let mut attempts = 0;
                let (actions, result) = run(first, |action| match action {
                    Action::SyntheticClick { .. } => {
                        attempts += 1;
                        if attempts > fail_from {
                            failure()
                        } else {
                            Outcome::Success
                        }
                    }
                    Action::WarpCursor { .. } => failure(),
                    _ => Outcome::Success,
                });
                let bound = 2 * (repeat as usize) * states + 3 * (repeat as usize) + 8;
                assert!(actions.len() <= bound);
                assert_eq!(result, Ok(()));
            }
        }
    }
}

#[test]
fn stray_phases_still_come_to_an_end() {
    let job = Job {
        x: 0,
        y: 0,
        click: true,
        button: MouseButton::Left,
        states: vec![MouseButtonState::Down],
        repeat: 1,
        phase: Phase::RawSettle { round: 9, index: usize::MAX },
    };
    let (actions, result) = run(job.advance(Outcome::Success), |_| Outcome::Success);
    assert_eq!(actions, vec![sleep(200)]);
    assert_eq!(result, Ok(()));
    let job = Job {
        x: 0,
        y: 0,
        click: true,
        button: MouseButton::Left,
        states: vec![],
        repeat: 1,
        phase: Phase::RepeatGap { attempt: u32::MAX },
    };
    let (actions, result) = run(job.advance(Outcome::Success), |_| Outcome::Success);
    assert_eq!(actions, vec![sleep(200)]);
    assert_eq!(result, Ok(()));
}
