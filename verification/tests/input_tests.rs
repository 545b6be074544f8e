use grandma_launcher::input::{
    is_usable_device, normalize_axis, normalize_key, repeat_action, Action, AxisEvent, DeviceCaps,
    InputState, ABS_HAT0X, ABS_HAT0Y, ABS_X, ABS_Y, BTN_DPAD_UP, BTN_EAST, BTN_SOUTH, BTN_START,
    KEY_DOWN, KEY_ENTER, KEY_ESC, KEY_UP,
};

#[test]
fn test_press_fires_immediately() {
    let mut state = InputState::new();
    assert_eq!(state.on_press(Action::Confirm), Some(Action::Confirm));
}

#[test]
fn test_no_repeat_before_delay() {
    let mut state = InputState::new();
    state.on_press(Action::Down);
    assert_eq!(state.poll_repeat(), None);
}

#[test]
fn test_release_clears_held() {
    let mut state = InputState::new();
    state.on_press(Action::Down);
    state.on_release(Action::Down);
    assert_eq!(state.poll_repeat(), None);
}

#[test]
fn nothing_held_never_repeats() {
    let mut state = InputState::new();
    assert_eq!(state.poll_repeat(), None);
}

#[test]
fn repeat_waits_for_delay_then_interval() {
    const MS: u128 = 1_000_000;
    assert_eq!(repeat_action(Some(Action::Up), true, 400 * MS - 1, 1000 * MS), None);
    assert_eq!(repeat_action(Some(Action::Up), true, 400 * MS, 150 * MS - 1), None);
    assert_eq!(repeat_action(Some(Action::Up), true, 400 * MS, 150 * MS), Some(Action::Up));
    assert_eq!(repeat_action(Some(Action::Up), false, 5000 * MS, 5000 * MS), None);
    assert_eq!(repeat_action(None, true, 5000 * MS, 5000 * MS), None);
}

#[test]
fn keys_map_to_actions() {
    assert_eq!(normalize_key(BTN_SOUTH), Some(Action::Confirm));
    assert_eq!(normalize_key(BTN_EAST), Some(Action::Back));
    assert_eq!(normalize_key(BTN_START), Some(Action::Escape));
    assert_eq!(normalize_key(BTN_DPAD_UP), Some(Action::Up));
    assert_eq!(normalize_key(KEY_DOWN), Some(Action::Down));
    assert_eq!(normalize_key(KEY_ENTER), Some(Action::Confirm));
    assert_eq!(normalize_key(KEY_ESC), Some(Action::Escape));
    assert_eq!(normalize_key(0x222), Some(Action::Left));
    assert_eq!(normalize_key(106), Some(Action::Right));
    assert_eq!(normalize_key(14), Some(Action::Back));
    assert_eq!(normalize_key(30), None);
}

#[test]
fn axis_press_release_and_switch() {
    let mut py = None;
    let mut px = None;
    assert_eq!(normalize_axis(ABS_Y, -20000, &mut py, &mut px), Some(AxisEvent::Pressed(Action::Up)));
    assert_eq!(py, Some(Action::Up));
    // Still up: pressed again.
    assert_eq!(normalize_axis(ABS_HAT0Y, -1, &mut py, &mut px), Some(AxisEvent::Pressed(Action::Up)));
    // Flip to down: releases up, remembers down.
    assert_eq!(normalize_axis(ABS_Y, 20000, &mut py, &mut px), Some(AxisEvent::Released(Action::Up)));
    assert_eq!(py, Some(Action::Down));
    // Centered: releases down.
    assert_eq!(normalize_axis(ABS_Y, 0, &mut py, &mut px), Some(AxisEvent::Released(Action::Down)));
    assert_eq!(py, None);
    assert_eq!(normalize_axis(ABS_Y, 100, &mut py, &mut px), None);
    assert_eq!(px, None);
}

#[test]
fn axis_horizontal_and_others() {
    let mut py = Some(Action::Up);
    let mut px = None;
    assert_eq!(normalize_axis(ABS_X, 1, &mut py, &mut px), Some(AxisEvent::Pressed(Action::Right)));
    assert_eq!(normalize_axis(ABS_HAT0X, -16001, &mut py, &mut px), Some(AxisEvent::Released(Action::Right)));
    assert_eq!(px, Some(Action::Left));
    assert_eq!(py, Some(Action::Up));
    assert_eq!(normalize_axis(0x02, 30000, &mut py, &mut px), None);
    assert_eq!(py, Some(Action::Up));
    assert_eq!(px, Some(Action::Left));
    // Thresholds are strict.
    let mut qy = None;
    assert_eq!(normalize_axis(ABS_Y, 16000, &mut qy, &mut px), None);
    assert_eq!(normalize_axis(ABS_Y, -16000, &mut qy, &mut px), None);
}

#[test]
fn usable_devices() {
    let pad = DeviceCaps { key_events: true, keys: Some(vec![1, BTN_SOUTH]) };
    let kbd = DeviceCaps { key_events: true, keys: Some(vec![KEY_DOWN, 5, KEY_UP]) };
    let half = DeviceCaps { key_events: true, keys: Some(vec![KEY_UP]) };
    let nokeys = DeviceCaps { key_events: false, keys: Some(vec![BTN_SOUTH]) };
    let unknown = DeviceCaps { key_events: true, keys: None };
    assert!(is_usable_device(&pad));
    assert!(is_usable_device(&kbd));
    assert!(!is_usable_device(&half));
    assert!(!is_usable_device(&nokeys));
    assert!(!is_usable_device(&unknown));
}

#[test]
fn repeat_timing_on_a_given_clock() {
    const MS: u128 = 1_000_000;
    let mut state = InputState::new();
    state.on_press_at(Action::Left, 10 * MS);
    // The delay counts from the press.
    assert_eq!(state.poll_repeat_at(409 * MS), None);
    assert_eq!(state.poll_repeat_at(410 * MS), Some(Action::Left));
    // Then the interval counts from the last repeat.
    assert_eq!(state.poll_repeat_at(559 * MS), None);
    assert_eq!(state.poll_repeat_at(560 * MS), Some(Action::Left));
    assert_eq!(state.poll_repeat_at(600 * MS), None);
    assert_eq!(state.poll_repeat_at(710 * MS), Some(Action::Left));
    // Releasing another action keeps the hold and its times.
    state.on_release(Action::Right);
    assert_eq!(state.poll_repeat_at(860 * MS), Some(Action::Left));
    // Releasing the held action stops it.
    state.on_release(Action::Left);
    assert_eq!(state.poll_repeat_at(5000 * MS), None);
    // A clock earlier than the press counts as no time at all.
    state.on_press_at(Action::Up, 100 * MS);
    assert_eq!(state.poll_repeat_at(0), None);
}
