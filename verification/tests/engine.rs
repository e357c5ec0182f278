use reversi_ai_arena::engine::MatchState;
use reversi_ai_arena::types::{Action, ActionKind, Disc, PlayerColor, Position};

fn place(row: u8, col: u8) -> Action {
    Action {
        kind: ActionKind::Place,
        position: Some(Position { row, col }),
    }
}

fn pass() -> Action {
    Action {
        kind: ActionKind::Pass,
        position: None,
    }
}

#[test]
fn standard_opening_legal_actions_match_reversi() {
    let state = MatchState::new_standard();
    let legal = state.legal_actions_for(PlayerColor::Black);
    assert_eq!(
        legal,
        vec![
            Position { row: 2, col: 3 },
            Position { row: 3, col: 2 },
            Position { row: 4, col: 5 },
            Position { row: 5, col: 4 },
        ]
    );
}

#[test]
fn applying_c4_flips_one_disc() {
    let mut state = MatchState::new_standard();
    state.apply_valid_action(&place(3, 2)).expect("apply");
    assert_eq!(state.board[3][2], Disc::Black);
    assert_eq!(state.board[3][3], Disc::Black);
    assert_eq!(state.current_player, Some(PlayerColor::White));
}

#[test]
fn illegal_pass_is_rejected_when_legal_moves_exist() {
    let state = MatchState::new_standard();
    assert!(!state.is_legal_action(PlayerColor::Black, &pass()));
}

#[test]
fn opening_is_two_discs_each_black_to_move() {
    let state = MatchState::new_standard();
    let summary = state.summary();
    assert_eq!(summary.black, 2);
    assert_eq!(summary.white, 2);
    assert_eq!(summary.winners, vec![PlayerColor::Black, PlayerColor::White]);
    assert_eq!(state.turn, 1);
    assert!(!state.completed);
    assert_eq!(MatchState::opening().len(), 4);
}

#[test]
fn refused_actions_leave_state_untouched() {
    let mut state = MatchState::new_standard();
    let before = state;
    assert_eq!(state.apply_valid_action(&pass()), Err("legal move turn requires placement"));
    assert_eq!(
        state.apply_valid_action(&Action { kind: ActionKind::Place, position: None }),
        Err("placement requires position")
    );
    assert_eq!(state.apply_valid_action(&place(0, 0)), Err("placement is not legal"));
    assert_eq!(state.apply_valid_action(&place(9, 9)), Err("placement is not legal"));
    assert_eq!(state, before);
}

#[test]
fn completed_match_refuses_actions() {
    let mut state = MatchState::new_standard();
    state.forfeit(PlayerColor::Black);
    assert_eq!(state.apply_valid_action(&place(3, 2)), Err("match is completed"));
    assert!(state.completed);
    assert_eq!(state.current_player, None);
    assert_eq!(state.winner_by_forfeit, Some(PlayerColor::White));
    assert_eq!(state.summary().winners, vec![PlayerColor::White]);
    assert!(state.legal_actions_for(PlayerColor::White).is_empty());
}

#[test]
fn forced_pass_then_second_pass_ends_match() {
    let mut board = [[Disc::Empty; 8]; 8];
    board[0][0] = Disc::Black;
    board[0][1] = Disc::Black;
    let mut state = MatchState {
        board,
        current_player: Some(PlayerColor::White),
        turn: 10,
        consecutive_passes: 0,
        completed: false,
        winner_by_forfeit: None,
    };
    assert!(state.legal_actions_for(PlayerColor::White).is_empty());
    assert!(state.is_legal_action(PlayerColor::White, &pass()));
    assert!(!state.is_legal_action(PlayerColor::White, &place(0, 2)));
    assert_eq!(state.apply_valid_action(&place(0, 2)), Err("forced pass turn requires pass"));
    state.apply_valid_action(&pass()).expect("white passes");
    assert_eq!(state.consecutive_passes, 1);
    assert_eq!(state.current_player, Some(PlayerColor::Black));
    state.apply_valid_action(&pass()).expect("black passes");
    assert!(state.completed);
    assert_eq!(state.current_player, None);
    assert_eq!(state.turn, 12);
    assert_eq!(state.summary().winners, vec![PlayerColor::Black]);
}

#[test]
fn placement_turns_every_bracketed_line() {
    let mut board = [[Disc::Empty; 8]; 8];
    board[2][2] = Disc::Black;
    board[3][3] = Disc::White;
    board[3][4] = Disc::White;
    board[3][5] = Disc::Black;
    board[4][4] = Disc::White;
    board[5][5] = Disc::Black;
    let mut state = MatchState {
        board,
        current_player: Some(PlayerColor::Black),
        turn: 5,
        consecutive_passes: 1,
        completed: false,
        winner_by_forfeit: None,
    };
    state.apply_valid_action(&place(3, 2)).expect("c4 is legal");
    assert_eq!(state.board[3][3], Disc::Black);
    assert_eq!(state.board[3][4], Disc::Black);
    assert_eq!(state.board[4][4], Disc::White);
    assert_eq!(state.consecutive_passes, 0);
    let summary = state.summary();
    assert_eq!(summary.black, 6);
    assert_eq!(summary.white, 1);
    let public = state.public_state();
    assert_eq!(public.scores.black, 6);
    assert_eq!(public.turn, 6);
    assert_eq!(public.board.len(), 8);
    assert_eq!(public.board[3][2], Disc::Black);
}

#[test]
fn visible_state_lists_moves_only_for_side_to_move() {
    let state = MatchState::new_standard();
    let black = state.visible_state_for(PlayerColor::Black);
    let white = state.visible_state_for(PlayerColor::White);
    assert_eq!(black.legal_actions.len(), 4);
    assert!(white.legal_actions.is_empty());
    assert_eq!(black.scores.black, 2);
    assert_eq!(white.board[3][3], Disc::White);
    assert_eq!(black.turn, 1);
}

#[test]
fn colours_are_opposites() {
    assert_eq!(PlayerColor::Black.opponent(), PlayerColor::White);
    assert_eq!(PlayerColor::White.opponent(), PlayerColor::Black);
    assert_eq!(PlayerColor::Black.disc(), Disc::Black);
    assert_eq!(PlayerColor::White.disc(), Disc::White);
}

#[test]
fn full_board_ends_match() {
    let mut board = [[Disc::Black; 8]; 8];
    board[7][7] = Disc::Empty;
    board[7][6] = Disc::White;
    let mut state = MatchState {
        board,
        current_player: Some(PlayerColor::Black),
        turn: 60,
        consecutive_passes: 0,
        completed: false,
        winner_by_forfeit: None,
    };
    state.apply_valid_action(&place(7, 7)).expect("h8 is legal");
    assert!(state.completed);
    assert_eq!(state.current_player, None);
    assert_eq!(state.summary().black, 64);
}
