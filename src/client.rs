//! The client's settings: which netcode features are on, and the simulated ping.
use vstd::prelude::*;

verus! {

/// How much one key press changes the simulated ping, in milliseconds.
pub const PING_INTERVAL: u64 = 50;

/// The simulated ping at start-up, in milliseconds.
pub const DEFAULT_PING_MS: u64 = 250;

/// The netcode features the client applies, and the round-trip time it
/// simulates.
#[derive(Clone, Copy, Debug, PartialEq, Eq, Structural)]
pub struct Settings {
    /// Whether reconciliation is on.
    pub reconciliation: bool,
    /// Whether prediction is on.
    pub prediction: bool,
    /// Whether interpolation is on.
    pub interpolation: bool,
    /// The simulated round-trip time, in milliseconds.
    pub ping_ms: u64,
}

impl Settings {
    /// Every feature off, and the default ping.
    pub fn new() -> (r: Settings)
        ensures
            r == (Settings {
                reconciliation: false,
                prediction: false,
                interpolation: false,
                ping_ms: DEFAULT_PING_MS,
            }),
    {
        Settings {
            reconciliation: false,
            prediction: false,
            interpolation: false,
            ping_ms: DEFAULT_PING_MS,
        }
    }

    /// Raises the simulated ping by one interval, stopping at the largest value.
    pub fn increment_ping(&mut self)
        ensures
            final(self).ping_ms == raised_ping(old(self).ping_ms),
            final(self).reconciliation == old(self).reconciliation,
            final(self).prediction == old(self).prediction,
            final(self).interpolation == old(self).interpolation,
    {
        self.ping_ms = self.ping_ms.saturating_add(PING_INTERVAL);
    }

    /// Lowers the simulated ping by one interval, stopping at zero.
    pub fn decrement_ping(&mut self)
        ensures
            final(self).ping_ms == lowered_ping(old(self).ping_ms),
            final(self).reconciliation == old(self).reconciliation,
            final(self).prediction == old(self).prediction,
            final(self).interpolation == old(self).interpolation,
    {
        let step = if PING_INTERVAL <= self.ping_ms {
            PING_INTERVAL
        } else {
            self.ping_ms
        };
        self.ping_ms = self.ping_ms - step;
    }
}

/// A key the client reacts to.
#[derive(Clone, Copy, Debug, PartialEq, Eq, Structural)]
pub enum Control {
    /// Move up (jump).
    Up,
    /// Move down.
    Down,
    /// Move left.
    Left,
    /// Move right.
    Right,
    /// Switch interpolation on or off.
    Interpolation,
    /// Switch prediction on or off.
    Prediction,
    /// Switch reconciliation on or off.
    Reconciliation,
    /// Raise the simulated ping.
    PingUp,
    /// Lower the simulated ping.
    PingDown,
}

/// `v` stepped by `delta`, held within the range of `i8`.
pub open spec fn step_axis(v: i8, delta: int) -> i8 {
    if v + delta > i8::MAX {
        i8::MAX
    } else if v + delta < i8::MIN {
        i8::MIN
    } else {
        (v + delta) as i8
    }
}

/// The input direction after `control` is pressed: a direction key adds its
/// direction (up is `-1` on the vertical axis); other keys leave it.
pub open spec fn pressed_direction(m: (i8, i8), control: Control) -> (i8, i8) {
    match control {
        Control::Up => (m.0, step_axis(m.1, -1)),
        Control::Down => (m.0, step_axis(m.1, 1)),
        Control::Left => (step_axis(m.0, -1), m.1),
        Control::Right => (step_axis(m.0, 1), m.1),
        _ => m,
    }
}

/// The input direction after `control` is released: a direction key takes
/// its direction back; other keys leave it.
pub open spec fn released_direction(m: (i8, i8), control: Control) -> (i8, i8) {
    match control {
        Control::Up => (m.0, step_axis(m.1, 1)),
        Control::Down => (m.0, step_axis(m.1, -1)),
        Control::Left => (step_axis(m.0, 1), m.1),
        Control::Right => (step_axis(m.0, -1), m.1),
        _ => m,
    }
}

/// The ping after one raise: one interval more, at most `u64::MAX`.
pub open spec fn raised_ping(p: u64) -> u64 {
    if p <= u64::MAX - PING_INTERVAL {
        (p + PING_INTERVAL) as u64
    } else {
        u64::MAX
    }
}

/// The ping after one lowering: one interval less, at least zero.
pub open spec fn lowered_ping(p: u64) -> u64 {
    if p >= PING_INTERVAL {
        (p - PING_INTERVAL) as u64
    } else {
        0
    }
}

/// The settings after `control` is pressed; a key held down (`repeat`)
/// only changes the ping.
pub open spec fn pressed_settings(s: Settings, control: Control, repeat: bool) -> Settings {
    match control {
        Control::PingUp => Settings { ping_ms: raised_ping(s.ping_ms), ..s },
        Control::PingDown => Settings { ping_ms: lowered_ping(s.ping_ms), ..s },
        Control::Interpolation => if repeat { s } else { Settings { interpolation: !s.interpolation, ..s } },
        Control::Prediction => if repeat { s } else { Settings { prediction: !s.prediction, ..s } },
        Control::Reconciliation => if repeat { s } else { Settings { reconciliation: !s.reconciliation, ..s } },
        _ => s,
    }
}

/// Moves `v` by `delta`, one of `-1` and `1`, within the range of `i8`.
fn step(v: i8, delta: i8) -> (r: i8)
    requires
        delta == 1 || delta == -1,
    ensures
        r == step_axis(v, delta as int),
{
    if delta == 1 {
        if v < i8::MAX { v + 1 } else { v }
    } else {
        if v > i8::MIN { v - 1 } else { v }
    }
}

/// Handles a key press: a direction key adds its direction to `movement`
/// (unless the press is a key repeat), the switches flip their feature, and
/// the ping keys change the simulated ping, also on repeat.
pub fn press(settings: &mut Settings, movement: &mut (i8, i8), control: Control, repeat: bool)
    ensures
        *final(settings) == pressed_settings(*old(settings), control, repeat),
        *final(movement) == if repeat { *old(movement) } else { pressed_direction(*old(movement), control) },
{
    match control {
        Control::PingUp => settings.increment_ping(),
        Control::PingDown => settings.decrement_ping(),
        _ => {
            if !repeat {
                match control {
                    Control::Up => movement.1 = step(movement.1, -1),
                    Control::Down => movement.1 = step(movement.1, 1),
                    Control::Left => movement.0 = step(movement.0, -1),
                    Control::Right => movement.0 = step(movement.0, 1),
                    Control::Interpolation => settings.interpolation = !settings.interpolation,
                    Control::Prediction => settings.prediction = !settings.prediction,
                    Control::Reconciliation => settings.reconciliation = !settings.reconciliation,
                    _ => {},
                }
            }
        },
    }
}

/// Handles a key release: a direction key takes its direction back from
/// `movement`; other keys do nothing.
pub fn release(movement: &mut (i8, i8), control: Control)
    ensures
        *final(movement) == released_direction(*old(movement), control),
{
    match control {
        Control::Up => movement.1 = step(movement.1, 1),
        Control::Down => movement.1 = step(movement.1, -1),
        Control::Left => movement.0 = step(movement.0, 1),
        Control::Right => movement.0 = step(movement.0, -1),
        _ => {},
    }
}

/// The delay of each direction of a simulated round trip: half the ping, in
/// milliseconds.
pub fn load_delay(ping_ms: u64) -> (r: u64)
    ensures
        r == ping_ms / 2,
{
    ping_ms / 2
}

} // verus!
