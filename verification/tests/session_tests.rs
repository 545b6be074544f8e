use grandma_launcher::config::{GameEntry, State};
use grandma_launcher::grid::{GridState, LauncherStep};
use grandma_launcher::input::{ABS_HAT0X, ABS_Y, BTN_EAST, BTN_SOUTH, BTN_START, KEY_DOWN, KEY_RIGHT};
use grandma_launcher::session::{InputEvent, Session};

fn games(n: usize) -> Vec<GameEntry> {
    (0..n)
        .map(|i| GameEntry {
            id: format!("g{}", i),
            name: format!("Game {}", i),
            system: "arcade".into(),
            launch: format!("/x/{}.mra", i),
            art: String::new(),
        })
        .collect()
}

fn session(n: usize, columns: u32) -> Session {
    Session::new(GridState::new(games(n), &State::default(), columns, "T".into()))
}

#[test]
fn key_presses_move_and_redraw() {
    let mut s = session(7, 3);
    assert_eq!(s.on_event(InputEvent::Key { code: KEY_RIGHT, value: 1 }, 0), LauncherStep::Redraw);
    assert_eq!(s.grid.selected, 1);
    assert_eq!(s.on_event(InputEvent::Key { code: KEY_DOWN, value: 1 }, 0), LauncherStep::Redraw);
    assert_eq!(s.grid.selected, 4);
    // Releases and the kernel's autorepeat do nothing.
    assert_eq!(s.on_event(InputEvent::Key { code: KEY_DOWN, value: 0 }, 0), LauncherStep::Stay);
    assert_eq!(s.on_event(InputEvent::Key { code: KEY_DOWN, value: 2 }, 0), LauncherStep::Stay);
    assert_eq!(s.grid.selected, 4);
    // A release of the held key stops its repeat.
    assert_eq!(s.input.poll_repeat(), None);
}

#[test]
fn buttons_launch_leave_or_do_nothing() {
    let mut s = session(3, 3);
    assert_eq!(s.on_event(InputEvent::Key { code: BTN_EAST, value: 1 }, 0), LauncherStep::Stay);
    assert_eq!(s.on_event(InputEvent::Key { code: BTN_SOUTH, value: 1 }, 0), LauncherStep::Launch);
    assert_eq!(s.on_event(InputEvent::Key { code: BTN_START, value: 1 }, 0), LauncherStep::Exit);
    assert_eq!(s.on_event(InputEvent::Key { code: 30, value: 1 }, 0), LauncherStep::Stay);
    assert_eq!(s.on_event(InputEvent::Other, 0), LauncherStep::Stay);

    let mut empty = session(0, 3);
    assert_eq!(empty.on_event(InputEvent::Key { code: BTN_SOUTH, value: 1 }, 0), LauncherStep::Stay);
}

#[test]
fn axes_press_and_release_directions() {
    let mut s = session(7, 3);
    assert_eq!(s.on_event(InputEvent::Axis { code: ABS_Y, value: 30000 }, 0), LauncherStep::Redraw);
    assert_eq!(s.grid.selected, 3);
    assert_eq!(s.prev_axis_y, Some(grandma_launcher::input::Action::Down));
    // Back to the center: a release, no move.
    assert_eq!(s.on_event(InputEvent::Axis { code: ABS_Y, value: 0 }, 0), LauncherStep::Stay);
    assert_eq!(s.grid.selected, 3);
    assert_eq!(s.prev_axis_y, None);
    assert_eq!(s.on_event(InputEvent::Axis { code: ABS_HAT0X, value: -1 }, 0), LauncherStep::Redraw);
    assert_eq!(s.grid.selected, 2);
    assert_eq!(s.on_event(InputEvent::Axis { code: 0x02, value: 30000 }, 0), LauncherStep::Stay);
}

#[test]
fn move_fits_flags_overflowing_moves() {
    let mut s = session(3, 5);
    assert!(s.event_move_fits(&InputEvent::Key { code: KEY_DOWN, value: 1 }));
    s.grid.selected = usize::MAX - 2;
    assert!(!s.event_move_fits(&InputEvent::Key { code: KEY_DOWN, value: 1 }));
    assert!(s.event_move_fits(&InputEvent::Key { code: KEY_DOWN, value: 0 }));
    assert!(s.event_move_fits(&InputEvent::Key { code: KEY_RIGHT, value: 1 }));
    s.grid.selected = usize::MAX;
    assert!(!s.event_move_fits(&InputEvent::Key { code: KEY_RIGHT, value: 1 }));
    assert!(!s.event_move_fits(&InputEvent::Axis { code: ABS_HAT0X, value: 1 }));
}

#[test]
fn held_key_repeats_on_the_session_clock() {
    let mut s = session(7, 1);
    assert_eq!(s.on_event(InputEvent::Key { code: KEY_DOWN, value: 1 }, 1_000), LauncherStep::Redraw);
    assert_eq!(s.input.poll_repeat_at(1_000 + 399_999_999), None);
    assert_eq!(s.input.poll_repeat_at(1_000 + 400_000_000), Some(grandma_launcher::input::Action::Down));
}
