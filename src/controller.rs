use vstd::prelude::*;

verus! {

/// The two sides of the arena.
#[derive(PartialEq, Eq, Structural, Clone, Copy, Debug, Hash)]
pub enum Team {
    Yellow,
    Purple,
}

/// Where a player's input comes from: a locally attached gamepad (by its
/// device id) or a remote web-socket client (by the identity it reports).
#[derive(PartialEq, Eq, Structural, Clone, Copy, Debug, Hash)]
pub enum PlayerController {
    Gamepad(usize),
    WebSocket(i32),
}

/// One report of a remote controller.
///
/// `x_movement_bits` is the IEEE-754 bit pattern of the horizontal axis; the
/// library stores and hands it on but never interprets it. A sample with
/// `is_leaving` set is a pure departure signal.
#[derive(PartialEq, Eq, Structural, Clone, Copy, Debug)]
pub struct ControllerState {
    pub player: i32,
    pub is_purple: bool,
    pub is_leaving: bool,
    pub x_movement_bits: u32,
    pub jump: bool,
}

/// The team that a remote sample asks for.
pub open spec fn sample_team(s: ControllerState) -> Team {
    if s.is_purple {
        Team::Purple
    } else {
        Team::Yellow
    }
}

impl ControllerState {
    /// The team this sample asks to join.
    pub fn team(&self) -> (t: Team)
        ensures
            t == sample_team(*self),
    {
        if self.is_purple {
            Team::Purple
        } else {
            Team::Yellow
        }
    }
}

/// Request to the spawning system to bring a new player into the arena.
#[derive(PartialEq, Eq, Structural, Clone, Copy, Debug)]
pub struct SpawnPlayerEvent {
    pub team: Team,
    pub is_queen: bool,
    pub player_controller: PlayerController,
    pub delay_millis: u32,
    pub start_invincible: bool,
}

/// A player that is currently in the arena, as far as joining is concerned.
#[derive(PartialEq, Eq, Structural, Clone, Copy, Debug)]
pub struct LivePlayer {
    pub controller: PlayerController,
    pub team: Team,
    pub is_queen: bool,
}

/// Notice that the player driven by `controller` has left and must be removed.
#[derive(PartialEq, Eq, Structural, Clone, Copy, Debug)]
pub struct LeaveNotification {
    pub controller: PlayerController,
    pub team: Team,
    pub was_queen: bool,
}

} // verus!
