use hive_join::controller::{ControllerState, LeaveNotification, PlayerController, SpawnPlayerEvent, Team};
use hive_join::session::{GamepadPress, Session, SessionEvent};

fn sample(player: i32, is_purple: bool, is_leaving: bool) -> ControllerState {
    ControllerState {
        player,
        is_purple,
        is_leaving,
        x_movement_bits: 0,
        jump: false,
    }
}

fn moving(player: i32, bits: u32, jump: bool) -> ControllerState {
    ControllerState {
        player,
        is_purple: false,
        is_leaving: false,
        x_movement_bits: bits,
        jump,
    }
}

fn joined(team: Team, is_queen: bool, player: i32) -> SessionEvent {
    SessionEvent::Joined(SpawnPlayerEvent {
        team,
        is_queen,
        player_controller: PlayerController::WebSocket(player),
        delay_millis: 0,
        start_invincible: false,
    })
}

#[test]
fn join_leave_rejoin_scenario() {
    let mut s = Session::new();
    let evs = s.join_from_websocket(&vec![sample(7, false, false)]);
    assert_eq!(evs, vec![joined(Team::Yellow, true, 7)]);
    assert!(s.joined_web_sockets.0.contains(&7));
    assert_eq!(s.joined_web_sockets.0.len(), 1);

    let evs = s.join_from_websocket(&vec![sample(7, false, true)]);
    assert_eq!(
        evs,
        vec![SessionEvent::Left(LeaveNotification {
            controller: PlayerController::WebSocket(7),
            team: Team::Yellow,
            was_queen: true,
        })]
    );
    assert!(s.joined_web_sockets.0.is_empty());
    assert!(!s.team_has_queen(Team::Yellow));

    let evs = s.join_from_websocket(&vec![sample(7, true, false)]);
    assert_eq!(evs, vec![joined(Team::Purple, true, 7)]);
    assert!(s.joined_web_sockets.0.contains(&7));
    assert_eq!(s.joined_web_sockets.0.len(), 1);
}

#[test]
fn repeated_samples_join_once() {
    let mut s = Session::new();
    let evs = s.join_from_websocket(&vec![
        moving(3, 1, false),
        moving(3, 2, true),
        moving(3, 3, false),
    ]);
    assert_eq!(evs, vec![joined(Team::Yellow, true, 3)]);
    assert_eq!(s.players.len(), 1);
    assert_eq!(s.web_socket_controllers.0.get(&3), Some(&moving(3, 3, false)));
    let evs = s.join_from_websocket(&vec![moving(3, 4, true)]);
    assert!(evs.is_empty());
    assert_eq!(s.web_socket_controllers.0.get(&3), Some(&moving(3, 4, true)));
    assert_eq!(s.controller_state(3), Some(moving(3, 4, true)));
    assert_eq!(s.controller_state(99), None);
}

#[test]
fn leave_clears_roster_and_table() {
    let mut s = Session::new();
    s.join_from_websocket(&vec![moving(5, 0, false), moving(5, 9, true)]);
    assert!(s.web_socket_controllers.0.contains_key(&5));
    s.join_from_websocket(&vec![sample(5, false, true)]);
    assert!(!s.joined_web_sockets.0.contains(&5));
    assert!(!s.web_socket_controllers.0.contains_key(&5));
    assert!(s.players.is_empty());
    let evs = s.join_from_websocket(&vec![moving(5, 0, false)]);
    assert_eq!(evs, vec![joined(Team::Yellow, true, 5)]);
}

#[test]
fn leave_of_unknown_identity_is_ignored() {
    let mut s = Session::new();
    let evs = s.join_from_websocket(&vec![sample(11, true, true)]);
    assert!(evs.is_empty());
    assert!(s.joined_web_sockets.0.is_empty());
    assert!(s.players.is_empty());
}

#[test]
fn one_queen_per_team_and_no_promotion() {
    let mut s = Session::new();
    let evs = s.join_from_websocket(&vec![
        sample(1, false, false),
        sample(2, false, false),
        sample(3, true, false),
        sample(4, true, false),
    ]);
    assert_eq!(
        evs,
        vec![
            joined(Team::Yellow, true, 1),
            joined(Team::Yellow, false, 2),
            joined(Team::Purple, true, 3),
            joined(Team::Purple, false, 4),
        ]
    );
    s.join_from_websocket(&vec![sample(1, false, true)]);
    assert!(!s.team_has_queen(Team::Yellow));
    assert!(s.team_has_queen(Team::Purple));
    assert_eq!(s.players.iter().filter(|p| p.is_queen).count(), 1);
    // The next yellow join takes the free leadership.
    let evs = s.join_from_websocket(&vec![sample(9, false, false)]);
    assert_eq!(evs, vec![joined(Team::Yellow, true, 9)]);
}

#[test]
fn interleaving_gives_same_roster_and_table() {
    let a = vec![moving(1, 10, false), moving(1, 11, true), sample(1, false, true), moving(1, 12, false)];
    let b = vec![moving(2, 20, false), moving(2, 21, false)];
    let mut mixed = Vec::new();
    mixed.push(a[0]);
    mixed.push(b[0]);
    mixed.push(a[1]);
    mixed.push(a[2]);
    mixed.push(b[1]);
    mixed.push(a[3]);
    let mut together = Session::new();
    together.join_from_websocket(&mixed);
    let mut first = Session::new();
    first.join_from_websocket(&a);
    let mut second = Session::new();
    second.join_from_websocket(&b);
    for p in [1, 2] {
        let alone = if p == 1 { &first } else { &second };
        assert_eq!(together.joined_web_sockets.0.contains(&p), alone.joined_web_sockets.0.contains(&p));
        assert_eq!(together.web_socket_controllers.0.get(&p), alone.web_socket_controllers.0.get(&p));
    }
    assert_eq!(together.web_socket_controllers.0.get(&2), Some(&moving(2, 21, false)));
    assert!(together.web_socket_controllers.0.get(&1).is_none());
}

#[test]
fn empty_drain_changes_nothing() {
    let mut s = Session::new();
    s.join_from_websocket(&vec![sample(4, true, false)]);
    let before_players = s.players.clone();
    let evs = s.join_from_websocket(&Vec::new());
    assert!(evs.is_empty());
    assert_eq!(s.players, before_players);
    assert_eq!(s.joined_web_sockets.0.len(), 1);
    assert!(s.web_socket_controllers.0.is_empty());
}

#[test]
fn local_join_picks_team_by_trigger() {
    let mut s = Session::new();
    let evs = s.join(&vec![
        GamepadPress { gamepad: 0, left_just_pressed: true, right_just_pressed: false },
        GamepadPress { gamepad: 1, left_just_pressed: false, right_just_pressed: true },
        GamepadPress { gamepad: 2, left_just_pressed: false, right_just_pressed: false },
        GamepadPress { gamepad: 0, left_just_pressed: false, right_just_pressed: true },
    ]);
    assert_eq!(evs.len(), 2);
    assert_eq!(evs[0].team, Team::Yellow);
    assert!(evs[0].is_queen);
    assert_eq!(evs[0].player_controller, PlayerController::Gamepad(0));
    assert_eq!(evs[1].team, Team::Purple);
    assert!(evs[1].is_queen);
    assert!(s.joined_gamepads.0.contains(&0));
    assert!(s.joined_gamepads.0.contains(&1));
    assert!(!s.joined_gamepads.0.contains(&2));
}

#[test]
fn local_and_remote_share_leadership() {
    let mut s = Session::new();
    s.join(&vec![GamepadPress { gamepad: 0, left_just_pressed: true, right_just_pressed: false }]);
    let evs = s.join_from_websocket(&vec![sample(0, false, false)]);
    assert_eq!(evs, vec![joined(Team::Yellow, false, 0)]);
}

#[test]
fn disconnect_removes_local_player() {
    let mut s = Session::new();
    s.join(&vec![GamepadPress { gamepad: 3, left_just_pressed: false, right_just_pressed: true }]);
    let gone = s.disconnect(&vec![PlayerController::Gamepad(3), PlayerController::Gamepad(8)]);
    assert_eq!(
        gone,
        vec![LeaveNotification {
            controller: PlayerController::Gamepad(3),
            team: Team::Purple,
            was_queen: true,
        }]
    );
    assert!(s.joined_gamepads.0.is_empty());
    assert!(s.players.is_empty());
    assert!(!s.is_joined(PlayerController::Gamepad(3)));
}

#[test]
fn sample_team_follows_flag() {
    assert_eq!(sample(1, true, false).team(), Team::Purple);
    assert_eq!(sample(1, false, false).team(), Team::Yellow);
}

#[test]
fn find_player_locates_controller() {
    let mut s = Session::new();
    s.join_from_websocket(&vec![sample(1, false, false), sample(2, true, false)]);
    assert_eq!(s.find_player(PlayerController::WebSocket(2)), Some(1));
    assert_eq!(s.find_player(PlayerController::WebSocket(3)), None);
    let ev = s.add_player(PlayerController::Gamepad(4), Team::Purple);
    assert!(!ev.is_queen);
    assert_eq!(s.leave(PlayerController::WebSocket(9)), None);
}
