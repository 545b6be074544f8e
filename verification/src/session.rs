//! The launcher's reaction to controller events: the state machine that
//! the input loop drives with each event it reads.
use vstd::prelude::*;
use crate::grid::{button_step, is_direction, moved_by, GridState, LauncherStep};
use crate::input::{
    axis_direction, axis_event, key_action, normalize_axis, normalize_key, pressed, released,
    Action, AxisEvent, InputState, InputView, ABS_HAT0X, ABS_HAT0Y, ABS_X, ABS_Y,
};

verus! {

/// A controller event, as the launcher tells them apart.
#[derive(Debug, Clone, Copy, PartialEq, Eq, Structural)]
pub enum InputEvent {
    /// A key event: `value` 1 is a press, 0 a release, anything else
    /// (the kernel's autorepeat) is ignored.
    Key { code: u16, value: i32 },
    /// An absolute axis event (stick or hat).
    Axis { code: u16, value: i32 },
    /// Any other event.
    Other,
}

/// The grid, the press/repeat state, and the direction each axis points to.
pub struct Session {
    pub grid: GridState,
    pub input: InputState,
    pub prev_axis_y: Option<Action>,
    pub prev_axis_x: Option<Action>,
}

/// The directions of the vertical and horizontal axes after an axis event,
/// and the press or release it reports.
pub open spec fn axis_after(code: u16, value: i32, prev_y: Option<Action>, prev_x: Option<Action>) -> (
    Option<Action>,
    Option<Action>,
    Option<AxisEvent>,
) {
    if code == ABS_HAT0Y || code == ABS_Y {
        let d = axis_direction(value, Action::Up, Action::Down);
        (d, prev_x, axis_event(prev_y, d))
    } else if code == ABS_HAT0X || code == ABS_X {
        let d = axis_direction(value, Action::Left, Action::Right);
        (prev_y, d, axis_event(prev_x, d))
    } else {
        (prev_y, prev_x, None)
    }
}

/// The action an event presses, if any.
pub open spec fn pressed_by(e: InputEvent, prev_y: Option<Action>, prev_x: Option<Action>) -> Option<
    Action,
> {
    match e {
        InputEvent::Key { code, value } => if value == 1 {
            key_action(code)
        } else {
            None
        },
        InputEvent::Axis { code, value } => match axis_after(code, value, prev_y, prev_x).2 {
            Some(AxisEvent::Pressed(a)) => Some(a),
            _ => None,
        },
        InputEvent::Other => None,
    }
}

/// The action an event releases, if any.
pub open spec fn released_by(e: InputEvent, prev_y: Option<Action>, prev_x: Option<Action>) -> Option<
    Action,
> {
    match e {
        InputEvent::Key { code, value } => if value == 0 {
            key_action(code)
        } else {
            None
        },
        InputEvent::Axis { code, value } => match axis_after(code, value, prev_y, prev_x).2 {
            Some(AxisEvent::Released(a)) => Some(a),
            _ => None,
        },
        InputEvent::Other => None,
    }
}

/// Whether moving the selection by `action` keeps its arithmetic in range.
pub open spec fn move_fits(action: Option<Action>, selected: int, columns: int) -> bool {
    match action {
        Some(Action::Down) => selected + columns <= usize::MAX,
        Some(Action::Right) => selected < usize::MAX,
        _ => true,
    }
}

/// What the launcher does after an event: a key press acts as a button, an
/// axis press as a direction; nothing else leads anywhere.
pub open spec fn step_for(
    e: InputEvent,
    prev_y: Option<Action>,
    prev_x: Option<Action>,
    selected: int,
    len: int,
) -> LauncherStep {
    match pressed_by(e, prev_y, prev_x) {
        Some(a) => match e {
            InputEvent::Key { .. } => button_step(a, selected, len),
            _ => if is_direction(a) {
                LauncherStep::Redraw
            } else {
                LauncherStep::Stay
            },
        },
        None => LauncherStep::Stay,
    }
}

/// The press/repeat state after an event at time `now`.
pub open spec fn input_after(
    e: InputEvent,
    v: InputView,
    prev_y: Option<Action>,
    prev_x: Option<Action>,
    now: u128,
) -> InputView {
    match pressed_by(e, prev_y, prev_x) {
        Some(a) => pressed(v, a, now),
        None => match released_by(e, prev_y, prev_x) {
            Some(a) => released(v, a),
            None => v,
        },
    }
}

impl Session {
    /// A session on `grid`, with nothing held and both axes centered.
    pub fn new(grid: GridState) -> (s: Session)
        ensures
            s.grid == grid,
            s.input@.held is None,
            !s.input@.initial_sent,
            s.input@.pressed_ns == 0,
            s.input@.last_repeat_ns == 0,
            s.prev_axis_y is None,
            s.prev_axis_x is None,
    {
        Session { grid, input: InputState::new(), prev_axis_y: None, prev_axis_x: None }
    }

    /// The action `event` would press.
    fn pressed_action(&self, event: &InputEvent) -> (r: Option<Action>)
        ensures
            r == pressed_by(*event, self.prev_axis_y, self.prev_axis_x),
    {
        match event {
            InputEvent::Key { code, value } => {
                if *value == 1 {
                    normalize_key(*code)
                } else {
                    None
                }
            },
            InputEvent::Axis { code, value } => {
                let mut py = self.prev_axis_y;
                let mut px = self.prev_axis_x;
                match normalize_axis(*code, *value, &mut py, &mut px) {
                    Some(AxisEvent::Pressed(a)) => Some(a),
                    _ => None,
                }
            },
            InputEvent::Other => None,
        }
    }

    /// Whether handling `event` keeps the selection's arithmetic in range
    /// (where it does not, moving the selection would overflow).
    pub fn event_move_fits(&self, event: &InputEvent) -> (r: bool)
        ensures
            r == move_fits(
                pressed_by(*event, self.prev_axis_y, self.prev_axis_x),
                self.grid.selected as int,
                self.grid.columns as int,
            ),
    {
        match self.pressed_action(event) {
            Some(Action::Down) => (self.grid.selected as u128) + (self.grid.columns as u128)
                <= usize::MAX as u128,
            Some(Action::Right) => self.grid.selected < usize::MAX,
            _ => true,
        }
    }

    /// React to one controller event, which came at time `now` on the
    /// input state's clock.
    pub fn on_event(&mut self, event: InputEvent, now: u128) -> (step: LauncherStep)
        requires
            move_fits(
                pressed_by(event, old(self).prev_axis_y, old(self).prev_axis_x),
                old(self).grid.selected as int,
                old(self).grid.columns as int,
            ),
        ensures
            step == step_for(
                event,
                old(self).prev_axis_y,
                old(self).prev_axis_x,
                old(self).grid.selected as int,
                old(self).grid.games@.len() as int,
            ),
            final(self).grid.selected == match pressed_by(
                event,
                old(self).prev_axis_y,
                old(self).prev_axis_x,
            ) {
                Some(a) => moved_by(
                    a,
                    old(self).grid.selected as int,
                    old(self).grid.columns as int,
                    old(self).grid.games@.len() as int,
                ),
                None => old(self).grid.selected as int,
            },
            final(self).grid.games == old(self).grid.games,
            final(self).grid.columns == old(self).grid.columns,
            final(self).input@ == input_after(
                event,
                old(self).input@,
                old(self).prev_axis_y,
                old(self).prev_axis_x,
                now,
            ),
            match event {
                InputEvent::Axis { code, value } => final(self).prev_axis_y == axis_after(
                    code,
                    value,
                    old(self).prev_axis_y,
                    old(self).prev_axis_x,
                ).0 && final(self).prev_axis_x == axis_after(
                    code,
                    value,
                    old(self).prev_axis_y,
                    old(self).prev_axis_x,
                ).1,
                _ => final(self).prev_axis_y == old(self).prev_axis_y && final(self).prev_axis_x
                    == old(self).prev_axis_x,
            },
    {
        match event {
            InputEvent::Key { code, value } => {
                if value == 1 {
                    match normalize_key(code) {
                        Some(action) => {
                            let _ = self.input.on_press_at(action, now);
                            self.grid.on_button(action)
                        },
                        None => LauncherStep::Stay,
                    }
                } else {
                    if value == 0 {
                        match normalize_key(code) {
                            Some(action) => self.input.on_release(action),
                            None => {},
                        }
                    }
                    LauncherStep::Stay
                }
            },
            InputEvent::Axis { code, value } => {
                match normalize_axis(code, value, &mut self.prev_axis_y, &mut self.prev_axis_x) {
                    Some(AxisEvent::Pressed(action)) => {
                        let _ = self.input.on_press_at(action, now);
                        self.grid.on_direction(action)
                    },
                    Some(AxisEvent::Released(action)) => {
                        self.input.on_release(action);
                        LauncherStep::Stay
                    },
                    None => LauncherStep::Stay,
                }
            },
            InputEvent::Other => LauncherStep::Stay,
        }
    }
}

/// Whatever the event, a selection on a game stays on a game.
pub proof fn lemma_event_keeps_selection(
    e: InputEvent,
    prev_y: Option<Action>,
    prev_x: Option<Action>,
    selected: int,
    columns: int,
    len: int,
)
    requires
        0 <= selected < len,
        0 <= columns,
    ensures
        match pressed_by(e, prev_y, prev_x) {
            Some(a) => 0 <= moved_by(a, selected, columns, len) < len,
            None => true,
        },
{
    crate::grid::lemma_moves_stay_on_games(selected, columns, len);
}

/// The launcher launches only on a press of the confirm key while a game
/// is selected, and leaves only on a press of the escape key.
pub proof fn lemma_launch_and_exit_keys(
    e: InputEvent,
    prev_y: Option<Action>,
    prev_x: Option<Action>,
    selected: int,
    len: int,
)
    ensures
        step_for(e, prev_y, prev_x, selected, len) == LauncherStep::Launch <==> (e is Key
            && pressed_by(e, prev_y, prev_x) == Some(Action::Confirm) && 0 <= selected < len),
        step_for(e, prev_y, prev_x, selected, len) == LauncherStep::Exit <==> (e is Key
            && pressed_by(e, prev_y, prev_x) == Some(Action::Escape)),
{
}

} // verus!
