use hive_join::controller::Team;
use hive_join::game::{
    check_for_start_game, clear_gates, condition_name, next_state, remove_player, set_win_text,
    team_name, win_text, GameState, JoinGate, PlayerRemoval, WinCondition, WinEvent,
};

#[test]
fn removal_of_queen_with_berry_on_ship() {
    assert_eq!(
        remove_player(true, Some(42), true, Team::Purple),
        PlayerRemoval { drop_berry: true, release_ship: Some(42), neutral_gates_of: Some(Team::Purple) }
    );
    assert_eq!(
        remove_player(false, None, false, Team::Yellow),
        PlayerRemoval { drop_berry: false, release_ship: None, neutral_gates_of: None }
    );
}

#[test]
fn start_needs_every_gate_claimed() {
    let claimed = vec![JoinGate { team: Some(Team::Yellow) }, JoinGate { team: Some(Team::Purple) }];
    assert!(check_for_start_game(&claimed));
    let partial = vec![JoinGate { team: Some(Team::Yellow) }, JoinGate { team: None }];
    assert!(!check_for_start_game(&partial));
    assert!(check_for_start_game(&Vec::new()));
}

#[test]
fn clearing_gates_of_one_team() {
    let mut gates = vec![
        JoinGate { team: Some(Team::Yellow) },
        JoinGate { team: Some(Team::Purple) },
        JoinGate { team: None },
    ];
    clear_gates(&mut gates, Team::Yellow);
    assert_eq!(
        gates,
        vec![JoinGate { team: None }, JoinGate { team: Some(Team::Purple) }, JoinGate { team: None }]
    );
}

#[test]
fn banner_text() {
    let ev = WinEvent { team: Team::Purple, win_condition: WinCondition::Military };
    assert_eq!(win_text(&ev), "Military victory by Purple");
    let ev = WinEvent { team: Team::Yellow, win_condition: WinCondition::Ship };
    assert_eq!(win_text(&ev), "Ship victory by Yellow");
    assert_eq!(condition_name(WinCondition::Economic), "Economic");
    assert_eq!(team_name(Team::Yellow), "Yellow");
}

#[test]
fn banners_only_while_playing() {
    let evs = vec![WinEvent { team: Team::Yellow, win_condition: WinCondition::Economic }];
    assert_eq!(set_win_text(GameState::Play, &evs), vec!["Economic victory by Yellow".to_string()]);
    assert!(set_win_text(GameState::Join, &evs).is_empty());
    assert!(set_win_text(GameState::GameOver, &evs).is_empty());
}

#[test]
fn phase_transitions() {
    let open = vec![JoinGate { team: None }];
    let taken = vec![JoinGate { team: Some(Team::Yellow) }];
    assert_eq!(next_state(GameState::Join, &open, 0, false), GameState::Join);
    assert_eq!(next_state(GameState::Join, &taken, 0, false), GameState::Play);
    assert_eq!(next_state(GameState::Play, &open, 0, true), GameState::Play);
    assert_eq!(next_state(GameState::Play, &open, 1, false), GameState::GameOver);
    assert_eq!(next_state(GameState::GameOver, &open, 0, false), GameState::GameOver);
    assert_eq!(next_state(GameState::GameOver, &open, 0, true), GameState::Join);
}
