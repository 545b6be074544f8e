//! Controller input: raw key and axis codes become logical actions, and a
//! held direction repeats after a delay.
use vstd::prelude::*;
use std::time::{Duration, Instant};

verus! {

/// A logical input action.
#[derive(Debug, Clone, Copy, PartialEq, Eq, Structural)]
pub enum Action {
    Up,
    Down,
    Left,
    Right,
    Confirm,
    Back,
    Escape,
}

/// How long a direction must be held before it starts repeating, in nanoseconds.
pub const INITIAL_REPEAT_DELAY_NS: u128 = 400_000_000;

/// The time between two repeats of a held direction, in nanoseconds.
pub const REPEAT_INTERVAL_NS: u128 = 150_000_000;

#[verifier::external_type_specification]
#[verifier::external_body]
pub struct ExInstant(Instant);

/// `Instant::now`: the current time.  Nothing is promised of the value.
#[verifier::external_body]
fn instant_now() -> Instant {
    Instant::now()
}

/// `Instant::elapsed`: the time since `since`.  It depends on the clock, so
/// nothing is promised of the value.
#[verifier::external_body]
fn instant_elapsed(since: &Instant) -> Duration {
    since.elapsed()
}

/// `Duration::as_nanos`: the whole nanoseconds of `d`.  `Duration` is
/// opaque here, so nothing is stated of the result.
#[verifier::external_body]
fn duration_whole_nanos(d: Duration) -> u128 {
    d.as_nanos()
}

/// What the press and repeat logic reads of an input state: the held
/// action, whether its press was sent, and the times (in nanoseconds since
/// the state was made) of the press and of the last repeat.
pub struct InputView {
    pub held: Option<Action>,
    pub initial_sent: bool,
    pub pressed_ns: u128,
    pub last_repeat_ns: u128,
}

/// Press/release/repeat state of the controller.
pub struct InputState {
    held_action: Option<Action>,
    origin: Instant,
    held_since_ns: u128,
    last_repeat_ns: u128,
    has_sent_initial: bool,
}

/// The state after pressing `action` at time `now`: it is held from now,
/// and the repeat interval counts from now too.
pub open spec fn pressed(v: InputView, action: Action, now: u128) -> InputView {
    InputView { held: Some(action), initial_sent: true, pressed_ns: now, last_repeat_ns: now }
}

/// The state after releasing `action`: it clears only the action that is
/// held; releasing another action changes nothing.
pub open spec fn released(v: InputView, action: Action) -> InputView {
    if v.held == Some(action) {
        InputView { held: None, initial_sent: false, ..v }
    } else {
        v
    }
}

/// The time from `since` to `now`, or zero if `now` is earlier.
pub open spec fn elapsed_since(since: u128, now: u128) -> u128 {
    if now >= since {
        (now - since) as u128
    } else {
        0
    }
}

/// What a poll yields when the held action has been held `held_ns`
/// nanoseconds and the last repeat (or the press) lies `since_last_ns`
/// nanoseconds back.
pub open spec fn repeat_of(v: InputView, held_ns: u128, since_last_ns: u128) -> Option<Action> {
    if v.held is Some && v.initial_sent && held_ns >= INITIAL_REPEAT_DELAY_NS && since_last_ns
        >= REPEAT_INTERVAL_NS {
        v.held
    } else {
        None
    }
}

/// What a poll at time `now` yields: the held time counts from the press,
/// the interval from the last repeat.
pub open spec fn repeat_at(v: InputView, now: u128) -> Option<Action> {
    repeat_of(v, elapsed_since(v.pressed_ns, now), elapsed_since(v.last_repeat_ns, now))
}

/// The state after a poll at time `now`: a repeat restarts the interval,
/// nothing else changes.
pub open spec fn polled_at(v: InputView, now: u128) -> InputView {
    if repeat_at(v, now) is Some {
        InputView { last_repeat_ns: now, ..v }
    } else {
        v
    }
}

impl View for InputState {
    type V = InputView;

    closed spec fn view(&self) -> InputView {
        InputView {
            held: self.held_action,
            initial_sent: self.has_sent_initial,
            pressed_ns: self.held_since_ns,
            last_repeat_ns: self.last_repeat_ns,
        }
    }
}

/// Decide the repeat: the held action, if it has been held long enough
/// and the repeat interval has passed since the last repeat.
pub fn repeat_action(
    held: Option<Action>,
    initial_sent: bool,
    held_ns: u128,
    since_last_ns: u128,
) -> (r: Option<Action>)
    ensures
        r == repeat_of(
            InputView { held, initial_sent, pressed_ns: 0, last_repeat_ns: 0 },
            held_ns,
            since_last_ns,
        ),
{
    match held {
        None => None,
        Some(action) => {
            if !initial_sent {
                return None;
            }
            if held_ns < INITIAL_REPEAT_DELAY_NS {
                return None;
            }
            if since_last_ns >= REPEAT_INTERVAL_NS {
                Some(action)
            } else {
                None
            }
        },
    }
}

impl InputState {
    /// A state with nothing held, its clock starting now.
    pub fn new() -> (s: InputState)
        ensures
            s@.held is None,
            !s@.initial_sent,
            s@.pressed_ns == 0,
            s@.last_repeat_ns == 0,
    {
        InputState {
            held_action: None,
            origin: instant_now(),
            held_since_ns: 0,
            last_repeat_ns: 0,
            has_sent_initial: false,
        }
    }

    /// The time on this state's clock: nanoseconds since it was made.  It
    /// depends on the clock, so nothing is promised of the value.
    pub fn clock_ns(&self) -> u128 {
        duration_whole_nanos(instant_elapsed(&self.origin))
    }

    /// A press at time `now` fires its action at once and starts holding it.
    pub fn on_press_at(&mut self, action: Action, now: u128) -> (r: Option<Action>)
        ensures
            r == Some(action),
            final(self)@ == pressed(old(self)@, action, now),
    {
        self.held_action = Some(action);
        self.held_since_ns = now;
        self.last_repeat_ns = now;
        self.has_sent_initial = true;
        Some(action)
    }

    /// A press fires its action at once and starts holding it, from the
    /// time the clock gives.
    pub fn on_press(&mut self, action: Action) -> (r: Option<Action>)
        ensures
            r == Some(action),
            exists|now: u128| final(self)@ == pressed(old(self)@, action, now),
    {
        let now = self.clock_ns();
        self.on_press_at(action, now)
    }

    /// A release stops the repeat of the action it releases; releasing
    /// another action changes nothing.
    pub fn on_release(&mut self, action: Action)
        ensures
            final(self)@ == released(old(self)@, action),
    {
        let same = match self.held_action {
            Some(held) => held == action,
            None => false,
        };
        if same {
            self.held_action = None;
            self.has_sent_initial = false;
        }
    }

    /// Poll for a repeat of the held action at time `now`.
    pub fn poll_repeat_at(&mut self, now: u128) -> (r: Option<Action>)
        ensures
            r == repeat_at(old(self)@, now),
            final(self)@ == polled_at(old(self)@, now),
            r is Some ==> final(self)@.last_repeat_ns == now,
            r is None ==> final(self)@ == old(self)@,
    {
        let held_ns = if now >= self.held_since_ns {
            now - self.held_since_ns
        } else {
            0
        };
        let since_last_ns = if now >= self.last_repeat_ns {
            now - self.last_repeat_ns
        } else {
            0
        };
        let r = repeat_action(self.held_action, self.has_sent_initial, held_ns, since_last_ns);
        if r.is_some() {
            self.last_repeat_ns = now;
        }
        r
    }

    /// Poll for a repeat of the held action at the time the clock gives.
    pub fn poll_repeat(&mut self) -> (r: Option<Action>)
        ensures
            exists|now: u128|
                r == repeat_at(old(self)@, now) && final(self)@ == polled_at(old(self)@, now),
    {
        let now = self.clock_ns();
        self.poll_repeat_at(now)
    }
}

/// A poll never yields anything else than the action that was pressed last.
pub proof fn lemma_repeat_only_held(v: InputView, action: Action, pressed_ns: u128, now: u128)
    ensures
        repeat_at(pressed(v, action, pressed_ns), now) is None || repeat_at(
            pressed(v, action, pressed_ns),
            now,
        ) == Some(action),
{
}

/// Nothing repeats before the initial delay has passed since the press.
pub proof fn lemma_no_repeat_before_delay(v: InputView, action: Action, pressed_ns: u128, now: u128)
    requires
        now < pressed_ns + INITIAL_REPEAT_DELAY_NS,
    ensures
        repeat_at(pressed(v, action, pressed_ns), now) is None,
{
}

/// A held action repeats once the delay has passed since the press and the
/// interval since the last repeat.
pub proof fn lemma_repeat_when_due(v: InputView, now: u128)
    requires
        v.held is Some,
        v.initial_sent,
        v.pressed_ns + INITIAL_REPEAT_DELAY_NS <= now,
        v.last_repeat_ns + REPEAT_INTERVAL_NS <= now,
    ensures
        repeat_at(v, now) == v.held,
{
}

/// Two repeats come at least the repeat interval apart: after a repeat at
/// `t1`, a poll earlier than `t1` plus the interval yields nothing.
pub proof fn lemma_repeats_spaced(v: InputView, t1: u128, t2: u128)
    requires
        repeat_at(v, t1) is Some,
        t1 <= t2 < t1 + REPEAT_INTERVAL_NS,
    ensures
        repeat_at(polled_at(v, t1), t2) is None,
{
}

/// Releasing the pressed action stops its repeat, whatever the clock says.
pub proof fn lemma_release_stops_repeat(v: InputView, action: Action, pressed_ns: u128, now: u128)
    ensures
        repeat_at(released(pressed(v, action, pressed_ns), action), now) is None,
{
}

/// Releasing a different action than the held one keeps the whole state,
/// press and repeat times included.
pub proof fn lemma_release_other_keeps(v: InputView, held: Action, other: Action, pressed_ns: u128)
    requires
        held != other,
    ensures
        released(pressed(v, held, pressed_ns), other) == pressed(v, held, pressed_ns),
{
}

// Linux input event codes (see linux/input-event-codes.h).
pub const KEY_ESC: u16 = 1;
pub const KEY_BACKSPACE: u16 = 14;
pub const KEY_ENTER: u16 = 28;
pub const KEY_UP: u16 = 103;
pub const KEY_LEFT: u16 = 105;
pub const KEY_RIGHT: u16 = 106;
pub const KEY_DOWN: u16 = 108;
pub const BTN_SOUTH: u16 = 0x130;
pub const BTN_EAST: u16 = 0x131;
pub const BTN_START: u16 = 0x13b;
pub const BTN_DPAD_UP: u16 = 0x220;
pub const BTN_DPAD_DOWN: u16 = 0x221;
pub const BTN_DPAD_LEFT: u16 = 0x222;
pub const BTN_DPAD_RIGHT: u16 = 0x223;
pub const ABS_X: u16 = 0x00;
pub const ABS_Y: u16 = 0x01;
pub const ABS_HAT0X: u16 = 0x10;
pub const ABS_HAT0Y: u16 = 0x11;

/// The action of a key code, if it has one.
pub open spec fn key_action(code: u16) -> Option<Action> {
    if code == BTN_SOUTH || code == KEY_ENTER {
        Some(Action::Confirm)
    } else if code == BTN_EAST || code == KEY_BACKSPACE {
        Some(Action::Back)
    } else if code == BTN_START || code == KEY_ESC {
        Some(Action::Escape)
    } else if code == BTN_DPAD_UP || code == KEY_UP {
        Some(Action::Up)
    } else if code == BTN_DPAD_DOWN || code == KEY_DOWN {
        Some(Action::Down)
    } else if code == BTN_DPAD_LEFT || code == KEY_LEFT {
        Some(Action::Left)
    } else if code == BTN_DPAD_RIGHT || code == KEY_RIGHT {
        Some(Action::Right)
    } else {
        None
    }
}

/// The key table: each arrow key and each d-pad button yields its own
/// direction; Enter and the south button confirm, Backspace and the east
/// button go back, Esc and Start escape; every other code yields nothing.
pub proof fn lemma_key_table(code: u16)
    ensures
        (key_action(code) == Some(Action::Up)) <==> (code == 103 || code == 0x220),
        (key_action(code) == Some(Action::Down)) <==> (code == 108 || code == 0x221),
        (key_action(code) == Some(Action::Left)) <==> (code == 105 || code == 0x222),
        (key_action(code) == Some(Action::Right)) <==> (code == 106 || code == 0x223),
        (key_action(code) == Some(Action::Confirm)) <==> (code == 28 || code == 0x130),
        (key_action(code) == Some(Action::Back)) <==> (code == 14 || code == 0x131),
        (key_action(code) == Some(Action::Escape)) <==> (code == 1 || code == 0x13b),
        key_action(code) is None <==> !(code == 103 || code == 0x220 || code == 108 || code
            == 0x221 || code == 105 || code == 0x222 || code == 106 || code == 0x223 || code == 28
            || code == 0x130 || code == 14 || code == 0x131 || code == 1 || code == 0x13b),
{
}

/// Normalize a key code into a logical action.
pub fn normalize_key(code: u16) -> (r: Option<Action>)
    ensures
        r == key_action(code),
        (r == Some(Action::Up)) <==> (code == 103 || code == 0x220),
        (r == Some(Action::Down)) <==> (code == 108 || code == 0x221),
        (r == Some(Action::Left)) <==> (code == 105 || code == 0x222),
        (r == Some(Action::Right)) <==> (code == 106 || code == 0x223),
        (r == Some(Action::Confirm)) <==> (code == 28 || code == 0x130),
        (r == Some(Action::Back)) <==> (code == 14 || code == 0x131),
        (r == Some(Action::Escape)) <==> (code == 1 || code == 0x13b),
{
    if code == BTN_SOUTH {
        Some(Action::Confirm)
    } else if code == BTN_EAST {
        Some(Action::Back)
    } else if code == BTN_START {
        Some(Action::Escape)
    } else if code == BTN_DPAD_UP {
        Some(Action::Up)
    } else if code == BTN_DPAD_DOWN {
        Some(Action::Down)
    } else if code == BTN_DPAD_LEFT {
        Some(Action::Left)
    } else if code == BTN_DPAD_RIGHT {
        Some(Action::Right)
    } else if code == KEY_UP {
        Some(Action::Up)
    } else if code == KEY_DOWN {
        Some(Action::Down)
    } else if code == KEY_LEFT {
        Some(Action::Left)
    } else if code == KEY_RIGHT {
        Some(Action::Right)
    } else if code == KEY_ENTER {
        Some(Action::Confirm)
    } else if code == KEY_BACKSPACE {
        Some(Action::Back)
    } else if code == KEY_ESC {
        Some(Action::Escape)
    } else {
        None
    }
}

/// What a device offers, as far as choosing input devices goes.
pub struct DeviceCaps {
    /// Whether the device reports key events at all.
    pub key_events: bool,
    /// The key codes it supports, if it reports them.
    pub keys: Option<Vec<u16>>,
}

/// Whether a device is a gamepad or keyboard to read from: it reports
/// keys, and has either the south face button or both up and down arrows.
pub open spec fn usable(caps: DeviceCaps) -> bool {
    caps.key_events && match caps.keys {
        Some(keys) => keys@.contains(BTN_SOUTH) || (keys@.contains(KEY_UP) && keys@.contains(
            KEY_DOWN,
        )),
        None => false,
    }
}

fn contains_code(keys: &Vec<u16>, code: u16) -> (r: bool)
    ensures
        r == keys@.contains(code),
{
    let mut i: usize = 0;
    while i < keys.len()
        invariant
            i <= keys@.len(),
            forall|j: int| 0 <= j < i ==> keys@[j] != code,
        decreases keys@.len() - i,
    {
        if keys[i] == code {
            return true;
        }
        i += 1;
    }
    false
}

/// Check if a device is a gamepad or keyboard we should read from.
/// Filters out HDMI CEC adapters, IR receivers, power buttons and sensors.
pub fn is_usable_device(caps: &DeviceCaps) -> (r: bool)
    ensures
        r == usable(*caps),
{
    if !caps.key_events {
        return false;
    }
    match &caps.keys {
        Some(keys) => {
            if contains_code(keys, BTN_SOUTH) {
                return true;
            }
            if contains_code(keys, KEY_UP) && contains_code(keys, KEY_DOWN) {
                return true;
            }
            false
        },
        None => false,
    }
}

/// An axis movement turned into a press or a release.
#[derive(Debug, Clone, Copy, PartialEq, Eq, Structural)]
pub enum AxisEvent {
    Pressed(Action),
    Released(Action),
}

/// The direction an axis value points to: far negative or the hat's -1
/// gives `neg`, far positive or +1 gives `pos`, anything else none.
pub open spec fn axis_direction(value: i32, neg: Action, pos: Action) -> Option<Action> {
    if value < -16000 || value == -1 {
        Some(neg)
    } else if value > 16000 || value == 1 {
        Some(pos)
    } else {
        None
    }
}

/// The event an axis reports when its direction goes from `prev` to `new`.
pub open spec fn axis_event(prev: Option<Action>, new: Option<Action>) -> Option<AxisEvent> {
    match (prev, new) {
        (Some(old), None) => Some(AxisEvent::Released(old)),
        (Some(old), Some(n)) => if old != n {
            Some(AxisEvent::Released(old))
        } else {
            Some(AxisEvent::Pressed(n))
        },
        (None, Some(n)) => Some(AxisEvent::Pressed(n)),
        (None, None) => None,
    }
}

/// One axis step: the event, with `prev` updated to the new direction.
fn axis_step(prev: &mut Option<Action>, new_action: Option<Action>) -> (r: Option<AxisEvent>)
    ensures
        r == axis_event(*old(prev), new_action),
        *final(prev) == new_action,
{
    let old_action = prev.take();
    match (old_action, new_action) {
        (Some(old), None) => Some(AxisEvent::Released(old)),
        (Some(old), Some(new)) => {
            *prev = Some(new);
            if old != new {
                Some(AxisEvent::Released(old))
            } else {
                Some(AxisEvent::Pressed(new))
            }
        },
        (None, Some(new)) => {
            *prev = Some(new);
            Some(AxisEvent::Pressed(new))
        },
        (None, None) => None,
    }
}

/// Normalize an absolute axis event.  The vertical axes (stick and hat)
/// track `prev_y`, the horizontal ones `prev_x`; other axes are ignored.
/// After the call the tracked direction is the one the axis points to now.
pub fn normalize_axis(
    code: u16,
    value: i32,
    prev_y: &mut Option<Action>,
    prev_x: &mut Option<Action>,
) -> (r: Option<AxisEvent>)
    ensures
        (code == ABS_HAT0Y || code == ABS_Y) ==> {
            &&& *final(prev_y) == axis_direction(value, Action::Up, Action::Down)
            &&& r == axis_event(*old(prev_y), axis_direction(value, Action::Up, Action::Down))
            &&& *final(prev_x) == *old(prev_x)
        },
        (code == ABS_HAT0X || code == ABS_X) ==> {
            &&& *final(prev_x) == axis_direction(value, Action::Left, Action::Right)
            &&& r == axis_event(*old(prev_x), axis_direction(value, Action::Left, Action::Right))
            &&& *final(prev_y) == *old(prev_y)
        },
        !(code == ABS_HAT0Y || code == ABS_Y || code == ABS_HAT0X || code == ABS_X) ==> {
            &&& r is None
            &&& *final(prev_y) == *old(prev_y)
            &&& *final(prev_x) == *old(prev_x)
        },
{
    if code == ABS_HAT0Y || code == ABS_Y {
        let new_action = if value < -16000 || value == -1 {
            Some(Action::Up)
        } else if value > 16000 || value == 1 {
            Some(Action::Down)
        } else {
            None
        };
        axis_step(prev_y, new_action)
    } else if code == ABS_HAT0X || code == ABS_X {
        let new_action = if value < -16000 || value == -1 {
            Some(Action::Left)
        } else if value > 16000 || value == 1 {
            Some(Action::Right)
        } else {
            None
        };
        axis_step(prev_x, new_action)
    } else {
        None
    }
}

/// A release always names the direction that was held before.
pub proof fn lemma_axis_release_names_previous(prev: Option<Action>, new: Option<Action>, a: Action)
    requires
        axis_event(prev, new) == Some(AxisEvent::Released(a)),
    ensures
        prev == Some(a),
{
}

/// A press always names the direction the axis points to now.
pub proof fn lemma_axis_press_names_current(prev: Option<Action>, new: Option<Action>, a: Action)
    requires
        axis_event(prev, new) == Some(AxisEvent::Pressed(a)),
    ensures
        new == Some(a),
{
}

/// An axis that keeps pointing nowhere reports nothing; one that changes
/// direction reports something.
pub proof fn lemma_axis_reports_changes(prev: Option<Action>, new: Option<Action>)
    ensures
        (prev is None && new is None) <==> axis_event(prev, new) is None,
{
}

} // verus!
