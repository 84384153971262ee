//! Values shared by the client and the server.
use vstd::prelude::*;

verus! {

/// One movement input.
///
/// Carries an id (sequence number), which the server echoes back as an
/// acknowledgment and the client uses for reconciliation.
#[derive(Clone, Copy, Debug, PartialEq, Eq)]
pub struct Movement {
    /// The sequence number.
    pub id: usize,
    /// The direction of the movement input, each component in `{-1, 0, 1}`.
    pub dir: (i8, i8),
}

/// A message sent from the client to the server: one input with its id.
#[derive(Clone, Copy, Debug, PartialEq, Eq, Structural)]
pub struct Message {
    /// The sequence number.
    pub id: usize,
    /// The horizontal direction of the input.
    pub x: i8,
    /// The vertical direction of the input (`-1` is up).
    pub y: i8,
}

/// The airtime state of a player, recomputed by every physics step.
///
/// It decides whether friction applies, whether the player may jump, and
/// whether a jump is a wall-jump.
#[derive(Clone, Copy, Debug, PartialEq, Eq, Structural)]
pub enum PlayerState {
    /// The player touches a wall; the number is the side of the player the
    /// wall is on (`1`: right, `-1`: left). The player may wall-jump.
    WallBound(i8),
    /// The player stands on a platform and may jump.
    Grounded,
    /// The player is in the air and cannot jump.
    Airborne,
}

} // verus!
