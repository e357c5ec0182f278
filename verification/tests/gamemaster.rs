use reversi_ai_arena::engine::MatchState;
use reversi_ai_arena::gamemaster::{ReversiGameMaster, SnapshotState, TurnPayload};
use reversi_ai_arena::gm_protocol::{
    ActionDecision, ActionStatus, DecisionMode, FailureReason, MatchStatus, Player,
};
use reversi_ai_arena::types::{Action, ActionKind, Disc, PlayerColor, Position};

fn players() -> Vec<Player> {
    vec![
        Player {
            player_id: "p1".to_string(),
            ai_id: "a1".to_string(),
        },
        Player {
            player_id: "p2".to_string(),
            ai_id: "a2".to_string(),
        },
    ]
}

fn accepted(player: &str, action: Action) -> ActionStatus<Action> {
    ActionStatus {
        player_id: player.to_string(),
        action_status: ActionDecision::Accepted,
        failure_reason: None,
        action: Some(action),
    }
}

fn place(row: u8, col: u8) -> Action {
    Action {
        kind: ActionKind::Place,
        position: Some(Position { row, col }),
    }
}

fn pass() -> Action {
    Action {
        kind: ActionKind::Pass,
        position: None,
    }
}

#[test]
fn game_master_requests_black_first() {
    let (master, _) =
        ReversiGameMaster::initialize("m1".to_string(), players(), None).expect("init");
    let step = master.next_decision_step().expect("step");
    assert_eq!(step.requests.len(), 1);
    assert_eq!(step.requests[0].player_id, "p1");
}

#[test]
fn normalize_turn_rejects_illegal_pass() {
    let (master, _) =
        ReversiGameMaster::initialize("m1".to_string(), players(), None).expect("init");
    let step = master.next_decision_step().expect("step");
    let normalized = master.normalize_action(
        &step.requests[0],
        &ActionStatus {
            player_id: "p1".to_string(),
            action_status: ActionDecision::Accepted,
            failure_reason: None,
            action: Some(TurnPayload::Decoded(pass())),
        },
    );
    assert_eq!(normalized.action_status, ActionDecision::NoAction);
    assert_eq!(
        normalized.failure_reason,
        Some(FailureReason::InvalidIllegalAction)
    );
}

#[test]
fn normalize_outcomes() {
    let (master, _) =
        ReversiGameMaster::initialize("m1".to_string(), players(), None).expect("init");
    let step = master.next_decision_step().expect("step");
    let request = &step.requests[0];
    let status = |action: Option<TurnPayload>| ActionStatus {
        player_id: String::new(),
        action_status: ActionDecision::Accepted,
        failure_reason: None,
        action,
    };
    let legal = master.normalize_action(request, &status(Some(TurnPayload::Decoded(place(2, 3)))));
    assert_eq!(legal.player_id, "p1");
    assert_eq!(legal.action_status, ActionDecision::Accepted);
    assert_eq!(legal.action, Some(place(2, 3)));
    let malformed = master.normalize_action(request, &status(Some(TurnPayload::Malformed)));
    assert_eq!(malformed.failure_reason, Some(FailureReason::InvalidProtocolMalformed));
    let missing = master.normalize_action(request, &status(None));
    assert_eq!(missing.failure_reason, Some(FailureReason::InvalidIllegalAction));
    let timeout = master.normalize_action(
        request,
        &ActionStatus {
            player_id: "p1".to_string(),
            action_status: ActionDecision::NoAction,
            failure_reason: Some(FailureReason::InvalidTimeout),
            action: Some(TurnPayload::Decoded(place(2, 3))),
        },
    );
    assert_eq!(timeout.action_status, ActionDecision::NoAction);
    assert_eq!(timeout.failure_reason, Some(FailureReason::InvalidTimeout));
    assert_eq!(timeout.action, None);
}

#[test]
fn init_state_tells_each_player_its_colour() {
    let (master, init) =
        ReversiGameMaster::initialize("m1".to_string(), players(), None).expect("init");
    assert_eq!(init.per_player.len(), 2);
    let p1 = init.per_player.get(&"p1".to_string()).expect("p1");
    let p2 = init.per_player.get(&"p2".to_string()).expect("p2");
    assert_eq!(p1.you_are, PlayerColor::Black);
    assert_eq!(p2.you_are, PlayerColor::White);
    assert_eq!(p1.board_size, 8);
    assert_eq!(p1.opening.len(), 4);
    assert_eq!(p2.ruleset, "standard");
    assert_eq!(master.match_id(), "m1");
    assert_eq!(master.status(), MatchStatus::Running);
    assert!(ReversiGameMaster::initialize("m".to_string(), vec![], None).is_err());
}

#[test]
fn accepted_move_advances_and_illegal_move_forfeits() {
    let (mut master, _) =
        ReversiGameMaster::initialize("m1".to_string(), players(), None).expect("init");
    master
        .apply_decision_results(&[accepted("p1", place(3, 2))])
        .expect("apply");
    assert_eq!(master.state().current_player, Some(PlayerColor::White));
    let step = master.next_decision_step().expect("white to move");
    assert_eq!(step.requests[0].player_id, "p2");
    assert_eq!(step.turn, 2);
    assert_eq!(step.mode, DecisionMode::Sequential);
    assert_eq!(
        master.apply_decision_results(&[accepted("p1", place(2, 2))]),
        Err("missing action status for p2".to_string())
    );
    master
        .apply_decision_results(&[accepted("p2", place(0, 0))])
        .expect("apply");
    assert!(master.state().completed);
    assert_eq!(master.state().winner_by_forfeit, Some(PlayerColor::Black));
    assert_eq!(master.status(), MatchStatus::Completed);
    assert!(master.next_decision_step().is_none());
    let result = master.current_result();
    assert_eq!(result.placements[0].player_id, "p1");
    assert_eq!(result.placements[0].place, 1);
    assert_eq!(result.placements[1].place, 2);
    assert_eq!(
        master.apply_decision_results(&[accepted("p1", place(2, 2))]),
        Err("match is already completed".to_string())
    );
}

#[test]
fn no_action_loses_immediately() {
    let (mut master, _) =
        ReversiGameMaster::initialize("m1".to_string(), players(), None).expect("init");
    let failed = ActionStatus {
        player_id: "p1".to_string(),
        action_status: ActionDecision::NoAction,
        failure_reason: Some(FailureReason::InvalidTimeout),
        action: None,
    };
    master.apply_decision_results(&[failed]).expect("apply");
    assert_eq!(master.state().winner_by_forfeit, Some(PlayerColor::White));
    let exported = master.current_exported_snapshot();
    assert_eq!(exported.players[0].player_id, "p1");
    assert_eq!(
        exported.players[0].last_action_status.failure_reason,
        Some(FailureReason::InvalidTimeout)
    );
    assert_eq!(
        exported.players[1].last_action_status.action_status,
        ActionDecision::NoAction
    );
    assert!(exported.public_state.expect("public").completed);
    let result = master.current_result();
    assert_eq!(result.placements[1].player_id, "p2");
    assert_eq!(result.placements[1].place, 1);
}

#[test]
fn accepted_status_without_action_is_an_error() {
    let (mut master, _) =
        ReversiGameMaster::initialize("m1".to_string(), players(), None).expect("init");
    let empty = ActionStatus {
        player_id: "p1".to_string(),
        action_status: ActionDecision::Accepted,
        failure_reason: None,
        action: None,
    };
    assert_eq!(
        master.apply_decision_results(&[empty]),
        Err("accepted action is missing payload".to_string())
    );
    assert!(!master.state().completed);
}

#[test]
fn snapshot_resumes_match() {
    let (mut master, _) =
        ReversiGameMaster::initialize("m1".to_string(), players(), None).expect("init");
    master
        .apply_decision_results(&[accepted("p1", place(3, 2))])
        .expect("apply");
    let snapshot = master.current_snapshot();
    assert_eq!(snapshot.match_id, "m1");
    assert_eq!(snapshot.game_id.as_deref(), Some("reversi"));
    assert_eq!(snapshot.turn, 2);
    assert_eq!(snapshot.status, MatchStatus::Running);
    assert_eq!(snapshot.per_player.len(), 2);
    let p1 = snapshot.per_player.get(&"p1".to_string()).expect("p1");
    assert_eq!(p1.last_action_status.action, Some(place(3, 2)));
    assert_eq!(p1.stderr_bytes, 0);
    let game_state: SnapshotState = snapshot.game_state.expect("state");
    let (resumed, _) =
        ReversiGameMaster::initialize("m2".to_string(), players(), Some(game_state)).expect("init");
    assert_eq!(resumed.state().board[3][2], Disc::Black);
    assert_eq!(resumed.state().current_player, Some(PlayerColor::White));
    let state: MatchState = MatchState::from(game_state);
    assert_eq!(state.turn, 2);
}

#[test]
fn tie_gives_both_players_first_place() {
    let mut board = [[Disc::Empty; 8]; 8];
    board[0][0] = Disc::Black;
    board[7][7] = Disc::White;
    let snapshot = SnapshotState {
        board,
        current_player: Some(PlayerColor::Black),
        turn: 30,
        consecutive_passes: 0,
        completed: false,
        winner_by_forfeit: None,
    };
    let (mut master, _) =
        ReversiGameMaster::initialize("m".to_string(), players(), Some(snapshot)).expect("init");
    master.apply_decision_results(&[accepted("p1", pass())]).expect("black passes");
    master.apply_decision_results(&[accepted("p2", pass())]).expect("white passes");
    assert!(master.state().completed);
    let result = master.current_result();
    assert_eq!(result.placements[0].place, 1);
    assert_eq!(result.placements[1].place, 1);
}

#[test]
fn shared_player_id_plays_white_only() {
    let same = vec![
        Player {
            player_id: "p".to_string(),
            ai_id: "a1".to_string(),
        },
        Player {
            player_id: "p".to_string(),
            ai_id: "a2".to_string(),
        },
    ];
    let (master, init) = ReversiGameMaster::initialize("m".to_string(), same, None).expect("init");
    assert_eq!(init.per_player.len(), 1);
    assert_eq!(
        init.per_player.get(&"p".to_string()).expect("p").you_are,
        PlayerColor::White
    );
    assert!(master.next_decision_step().is_none());
}

fn resumed_at(turn: i32, consecutive_passes: u8) -> ReversiGameMaster {
    let start = MatchState::new_standard();
    let snapshot = SnapshotState {
        board: start.board,
        current_player: Some(PlayerColor::Black),
        turn,
        consecutive_passes,
        completed: false,
        winner_by_forfeit: None,
    };
    let (master, _) =
        ReversiGameMaster::initialize("m1".to_string(), players(), Some(snapshot)).expect("init");
    master
}

#[test]
fn decision_fits_only_where_playing_would_overflow() {
    let normal = resumed_at(5, 0);
    assert!(normal.decision_fits_now(&[accepted("p1", place(3, 2))]));
    let last = resumed_at(i32::MAX, 254);
    assert!(!last.decision_fits_now(&[accepted("p1", place(3, 2))]));
    assert!(last.decision_fits_now(&[accepted("p1", pass())]));
    assert!(last.decision_fits_now(&[accepted("p1", place(0, 0))]));
    assert!(last.decision_fits_now(&[accepted("p2", place(3, 2))]));
    let refused = ActionStatus {
        player_id: "p1".to_string(),
        action_status: ActionDecision::NoAction,
        failure_reason: Some(FailureReason::InvalidTimeout),
        action: None,
    };
    assert!(last.decision_fits_now(&[refused.clone()]));
    let mut forfeit = resumed_at(i32::MAX, 0);
    forfeit.apply_decision_results(&[refused]).expect("apply");
    assert!(forfeit.state().completed);
    assert_eq!(forfeit.state().winner_by_forfeit, Some(PlayerColor::White));
}
