//! The airtime-state rules of the deterministic physics step.
//!
//! The step itself integrates positions and velocities; what it decides from
//! the airtime state (air control or ground friction, jump or wall-jump, the
//! state a collision leaves behind) is stated here.
use vstd::prelude::*;
use crate::model::PlayerState;

verus! {

/// What an input does to the vertical and horizontal velocity at take-off.
#[derive(Clone, Copy, Debug, PartialEq, Eq, Structural)]
pub enum Jump {
    /// Nothing happens: the input is not "up", or the player is airborne.
    Stay,
    /// A jump off the ground: the vertical velocity becomes the jump speed upwards.
    Straight,
    /// A wall-jump: the vertical velocity becomes the jump speed upwards, and
    /// a horizontal impulse of one and a half jump speeds is added in the
    /// given direction, which points away from the wall.
    WallKick(i16),
}

/// The axis along which a collision pushed a player out of a platform.
#[derive(Clone, Copy, Debug, PartialEq, Eq, Structural)]
pub enum Axis {
    /// Pushed sideways, out of a wall.
    Horizontal,
    /// Pushed up onto a platform or down from a ceiling.
    Vertical,
}

/// The jump that a vertical input `input_y` triggers in airtime state `state`.
pub open spec fn jump_of(state: PlayerState, input_y: i8) -> Jump {
    if input_y != -1 {
        Jump::Stay
    } else {
        match state {
            PlayerState::Grounded => Jump::Straight,
            PlayerState::WallBound(side) => Jump::WallKick((-side) as i16),
            PlayerState::Airborne => Jump::Stay,
        }
    }
}

/// Decides whether an input jumps.
///
/// Only "up" (`input_y == -1`) jumps. From the ground it is a straight jump;
/// against a wall it is a wall-jump that kicks away from the wall; in the air
/// it does nothing (there is no double jump).
pub fn jump(state: PlayerState, input_y: i8) -> (r: Jump)
    ensures
        r == jump_of(state, input_y),
{
    if input_y != -1 {
        return Jump::Stay;
    }
    match state {
        PlayerState::Grounded => Jump::Straight,
        PlayerState::WallBound(side) => Jump::WallKick(-(side as i16)),
        PlayerState::Airborne => Jump::Stay,
    }
}

/// The direction, `-1`, `0` or `1`, in which the horizontal velocity is
/// accelerated this step.
///
/// On the ground the player is always pulled toward the target velocity
/// (`gap_negative` says whether the target lies below the current velocity),
/// which acts as friction when there is no input. In the air and against a
/// wall only the input accelerates.
pub open spec fn acceleration_direction_of(state: PlayerState, input_x: i8, gap_negative: bool) -> i8 {
    match state {
        PlayerState::Grounded => if gap_negative { -1i8 } else { 1i8 },
        _ => input_x,
    }
}

/// Computes the direction of the horizontal acceleration (see
/// [`acceleration_direction_of`]).
pub fn acceleration_direction(state: PlayerState, input_x: i8, gap_negative: bool) -> (r: i8)
    ensures
        r == acceleration_direction_of(state, input_x, gap_negative),
{
    match state {
        PlayerState::Grounded => if gap_negative { -1 } else { 1 },
        _ => input_x,
    }
}

/// The airtime state after a collision pushed the player out of a platform
/// along `axis`; `relative_negative` says whether the player's centre lay
/// before the platform's centre on that axis (left of it, or above it).
pub open spec fn state_after_correction_of(prior: PlayerState, axis: Axis, relative_negative: bool) -> PlayerState {
    match axis {
        Axis::Vertical => if relative_negative { PlayerState::Grounded } else { prior },
        Axis::Horizontal => PlayerState::WallBound(if relative_negative { 1i8 } else { -1i8 }),
    }
}

/// Updates the airtime state for one collision correction.
///
/// Pushed up out of a platform the player is grounded; pushed down from a
/// ceiling the state stays as it was; pushed sideways the player is bound to
/// the wall, on the side where the platform lies.
pub fn state_after_correction(prior: PlayerState, axis: Axis, relative_negative: bool) -> (r: PlayerState)
    ensures
        r == state_after_correction_of(prior, axis, relative_negative),
{
    match axis {
        Axis::Vertical => if relative_negative { PlayerState::Grounded } else { prior },
        Axis::Horizontal => PlayerState::WallBound(if relative_negative { 1 } else { -1 }),
    }
}

} // verus!
