use crate::controller::Team;
use vstd::prelude::*;

verus! {

/// The phases of a match.
#[derive(PartialEq, Eq, Structural, Clone, Copy, Debug, Hash)]
pub enum GameState {
    Join,
    Play,
    GameOver,
}

/// How a team won.
#[derive(PartialEq, Eq, Structural, Clone, Copy, Debug)]
pub enum WinCondition {
    Military,
    Economic,
    Ship,
}

/// A team has won.
#[derive(PartialEq, Eq, Structural, Clone, Copy, Debug)]
pub struct WinEvent {
    pub team: Team,
    pub win_condition: WinCondition,
}

/// An entry gate of the join phase, claimed by the team whose queen took it.
#[derive(PartialEq, Eq, Structural, Clone, Copy, Debug)]
pub struct JoinGate {
    pub team: Option<Team>,
}

/// What must happen in the world when a player is removed.
#[derive(PartialEq, Eq, Structural, Clone, Copy, Debug)]
pub struct PlayerRemoval {
    /// Put the carried berry back into the world where the player stood.
    pub drop_berry: bool,
    /// The ship whose team claim is released.
    pub release_ship: Option<u64>,
    /// The team whose gates go back to neutral, when the player was its queen.
    pub neutral_gates_of: Option<Team>,
}

/// Removing a player drops what it carries, frees the ship it rode and,
/// when it was a queen, gives up its team's gates.
pub fn remove_player(has_berry: bool, riding_ship: Option<u64>, is_queen: bool, team: Team) -> (r:
    PlayerRemoval)
    ensures
        r.drop_berry == has_berry,
        r.release_ship == riding_ship,
        r.neutral_gates_of == (if is_queen {
            Some(team)
        } else {
            None
        }),
{
    PlayerRemoval {
        drop_berry: has_berry,
        release_ship: riding_ship,
        neutral_gates_of: if is_queen {
            Some(team)
        } else {
            None
        },
    }
}

/// Whether every gate has been claimed by some team.
pub open spec fn all_claimed(gates: Seq<JoinGate>) -> bool {
    forall|i: int| 0 <= i < gates.len() ==> (#[trigger] gates[i]).team is Some
}

/// The join phase ends when every entry gate has been claimed.
pub fn check_for_start_game(gates: &Vec<JoinGate>) -> (r: bool)
    ensures
        r == all_claimed(gates@),
{
    let mut i: usize = 0;
    while i < gates.len()
        invariant
            i <= gates.len(),
            forall|k: int| 0 <= k < i ==> (#[trigger] gates@[k]).team is Some,
        decreases gates.len() - i,
    {
        if gates[i].team.is_none() {
            return false;
        }
        i = i + 1;
    }
    true
}

/// Release every gate claimed by team `t`.
pub fn clear_gates(gates: &mut Vec<JoinGate>, t: Team)
    ensures
        final(gates)@.len() == old(gates)@.len(),
        forall|i: int|
            0 <= i < old(gates)@.len() ==> (#[trigger] final(gates)@[i]).team == (if old(gates)@[i].team
                == Some(t) {
                None
            } else {
                old(gates)@[i].team
            }),
{
    let ghost start = gates@;
    let mut i: usize = 0;
    while i < gates.len()
        invariant
            i <= gates.len(),
            gates@.len() == start.len(),
            forall|k: int| i <= k < start.len() ==> #[trigger] gates@[k] == start[k],
            forall|k: int|
                0 <= k < i ==> (#[trigger] gates@[k]).team == (if start[k].team == Some(t) {
                    None
                } else {
                    start[k].team
                }),
        decreases gates.len() - i,
    {
        if gates[i].team == Some(t) {
            gates.set(i, JoinGate { team: None });
        }
        i = i + 1;
    }
}

/// The name a team is shown under.
pub open spec fn team_label(t: Team) -> Seq<char> {
    match t {
        Team::Yellow => "Yellow"@,
        Team::Purple => "Purple"@,
    }
}

/// The name a win condition is shown under.
pub open spec fn condition_label(c: WinCondition) -> Seq<char> {
    match c {
        WinCondition::Military => "Military"@,
        WinCondition::Economic => "Economic"@,
        WinCondition::Ship => "Ship"@,
    }
}

/// The banner announcing a win, such as "Military victory by Purple".
pub open spec fn win_label(ev: WinEvent) -> Seq<char> {
    condition_label(ev.win_condition) + " victory by "@ + team_label(ev.team)
}

/// The name of team `t`.
pub fn team_name(t: Team) -> (r: &'static str)
    ensures
        r@ == team_label(t),
{
    match t {
        Team::Yellow => "Yellow",
        Team::Purple => "Purple",
    }
}

/// The name of win condition `c`.
pub fn condition_name(c: WinCondition) -> (r: &'static str)
    ensures
        r@ == condition_label(c),
{
    match c {
        WinCondition::Military => "Military",
        WinCondition::Economic => "Economic",
        WinCondition::Ship => "Ship",
    }
}

/// The banner text for a win.
pub fn win_text(ev: &WinEvent) -> (r: String)
    ensures
        r@ == win_label(*ev),
{
    let mut s = String::from_str(condition_name(ev.win_condition));
    s.append(" victory by ");
    s.append(team_name(ev.team));
    s
}

/// The banners to show for this tick's wins: one per win while playing,
/// none in any other phase. Any banner ends the match.
pub fn set_win_text(state: GameState, events: &Vec<WinEvent>) -> (r: Vec<String>)
    ensures
        state != GameState::Play ==> r@.len() == 0,
        state == GameState::Play ==> r@.len() == events@.len(),
        forall|i: int| 0 <= i < r@.len() ==> (#[trigger] r@[i])@ == win_label(events@[i]),
{
    let mut out: Vec<String> = Vec::new();
    if state != GameState::Play {
        return out;
    }
    let mut i: usize = 0;
    while i < events.len()
        invariant
            i <= events.len(),
            out@.len() == i,
            forall|k: int| 0 <= k < i ==> (#[trigger] out@[k])@ == win_label(events@[k]),
        decreases events.len() - i,
    {
        out.push(win_text(&events[i]));
        i = i + 1;
    }
    out
}

/// The phase after this tick's gate claims and wins: the join phase ends once
/// every gate is claimed, play ends on a win, and a finished match goes back
/// to joining once its banner timer has run out.
pub fn next_state(state: GameState, gates: &Vec<JoinGate>, wins: usize, banner_done: bool) -> (r:
    GameState)
    ensures
        r == match state {
            GameState::Join => if all_claimed(gates@) {
                GameState::Play
            } else {
                GameState::Join
            },
            GameState::Play => if wins > 0 {
                GameState::GameOver
            } else {
                GameState::Play
            },
            GameState::GameOver => if banner_done {
                GameState::Join
            } else {
                GameState::GameOver
            },
        },
{
    match state {
        GameState::Join => if check_for_start_game(gates) {
            GameState::Play
        } else {
            GameState::Join
        },
        GameState::Play => if wins > 0 {
            GameState::GameOver
        } else {
            GameState::Play
        },
        GameState::GameOver => if banner_done {
            GameState::Join
        } else {
            GameState::GameOver
        },
    }
}

} // verus!
