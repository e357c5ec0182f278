use reversi_ai_arena::engine::MatchState;
use reversi_ai_arena::player_protocol::Runtime;
use reversi_ai_arena::reference::{choose_action, player_name, search_depth, sidecar_manifest};
use reversi_ai_arena::types::{
    sample_visible_state, ActionKind, Disc, LegalActionHint, PlayerColor, Position, ScoreSummary,
    VisibleState,
};

fn strategic_corner_test_state() -> VisibleState {
    let mut board = vec![vec![Disc::Empty; 8]; 8];
    board[0][1] = Disc::White;
    board[0][2] = Disc::Black;
    board[1][0] = Disc::White;
    board[1][1] = Disc::White;
    board[1][2] = Disc::White;
    board[2][0] = Disc::Black;
    board[2][2] = Disc::Black;
    board[2][3] = Disc::White;
    board[2][4] = Disc::Black;

    VisibleState {
        turn: 12,
        board,
        current_player: Some(PlayerColor::Black),
        legal_actions: Vec::new(),
        scores: ScoreSummary { black: 4, white: 4 },
    }
}

fn black_moves_on(state: &VisibleState) -> Vec<Position> {
    let mut match_state = MatchState::new_standard();
    let mut board = [[Disc::Empty; 8]; 8];
    for (r, row) in state.board.iter().enumerate().take(8) {
        for (c, disc) in row.iter().enumerate().take(8) {
            board[r][c] = *disc;
        }
    }
    match_state.board = board;
    match_state.legal_actions_for(PlayerColor::Black)
}

#[test]
fn manifest_uses_expected_transport_contract() {
    let manifest = sidecar_manifest();
    assert_eq!(manifest.protocol.transport.as_str(), "stdio-jsonrpc-ndjson");
    assert_eq!(manifest.protocol.game_id, "reversi");
}

#[test]
fn manifest_runs_the_wasm_module() {
    let manifest = sidecar_manifest();
    assert_eq!(manifest.ai_id.as_deref(), Some(player_name()));
    assert_eq!(player_name(), "rust-reference");
    match manifest.runtime {
        Runtime::WasmWasi {
            module,
            args,
            memory_limit_pages,
        } => {
            assert_eq!(module, "./reversi-rust-reference-player.wasm");
            assert_eq!(args, vec!["./reversi-rust-reference-player.wasm".to_string()]);
            assert_eq!(memory_limit_pages, Some(64));
        }
        Runtime::LocalSubprocess { .. } => panic!("expected a wasm runtime"),
    }
}

#[test]
fn choose_action_prefers_corner_over_interior_move() {
    let state = strategic_corner_test_state();
    let hint = LegalActionHint {
        legal_actions: black_moves_on(&state),
    };
    let action = choose_action(&state, &hint);
    assert_eq!(action.kind, ActionKind::Place);
    assert_eq!(action.position, Some(Position { row: 0, col: 0 }));
}

#[test]
fn choose_action_passes_only_when_no_believed_legal_action_exists() {
    let mut state = sample_visible_state();
    state.board = vec![vec![Disc::Black; 8]; 8];
    state.current_player = None;
    state.legal_actions = Vec::new();
    state.scores = ScoreSummary {
        black: 64,
        white: 0,
    };
    let action = choose_action(
        &state,
        &LegalActionHint {
            legal_actions: Vec::new(),
        },
    );
    assert_eq!(action.kind, ActionKind::Pass);
    assert_eq!(action.position, None);
}

#[test]
fn choose_action_recovers_when_hint_is_empty_but_board_shows_legal_moves() {
    let mut state = strategic_corner_test_state();
    state.current_player = None;
    state.legal_actions = vec![Position { row: 0, col: 0 }, Position { row: 3, col: 5 }];

    let action = choose_action(
        &state,
        &LegalActionHint {
            legal_actions: Vec::new(),
        },
    );

    assert_eq!(action.kind, ActionKind::Place);
    assert_eq!(action.position, Some(Position { row: 0, col: 0 }));
}

#[test]
fn choose_action_ignores_inconsistent_hint_and_uses_believed_legal_moves() {
    let mut state = strategic_corner_test_state();
    state.current_player = Some(PlayerColor::Black);
    state.legal_actions = vec![Position { row: 0, col: 0 }, Position { row: 3, col: 5 }];

    let action = choose_action(
        &state,
        &LegalActionHint {
            legal_actions: vec![Position { row: 7, col: 7 }],
        },
    );

    assert_eq!(action.kind, ActionKind::Place);
    assert_eq!(action.position, Some(Position { row: 0, col: 0 }));
}

#[test]
fn choose_action_plays_a_legal_opening_move() {
    let state = MatchState::new_standard();
    let visible = state.visible_state_for(PlayerColor::Black);
    let hint = LegalActionHint {
        legal_actions: visible.legal_actions.clone(),
    };
    let action = choose_action(&visible, &hint);
    assert_eq!(action.kind, ActionKind::Place);
    let position = action.position.expect("placement");
    assert!(visible.legal_actions.contains(&position));
}

#[test]
fn choose_action_on_small_board_reads_missing_squares_as_empty() {
    let state = sample_visible_state();
    let hint = LegalActionHint {
        legal_actions: state.legal_actions.clone(),
    };
    let action = choose_action(&state, &hint);
    assert_eq!(action.kind, ActionKind::Place);
    let position = action.position.expect("placement");
    assert!(position.row < 4 && position.col < 4);
}

#[test]
fn search_depth_is_two_until_the_endgame() {
    let opening = MatchState::new_standard().visible_state_for(PlayerColor::Black);
    assert_eq!(search_depth(&opening), 2);
    assert_eq!(search_depth(&sample_visible_state()), 3);
    let mut full = strategic_corner_test_state();
    for row in full.board.iter_mut() {
        for disc in row.iter_mut() {
            *disc = Disc::Black;
        }
    }
    full.board[7][7] = Disc::Empty;
    assert_eq!(search_depth(&full), 3);
}

#[test]
fn choose_action_moves_at_the_last_turns_a_two_ply_search_allows() {
    let mut state = MatchState::new_standard().visible_state_for(PlayerColor::Black);
    state.turn = 0x7fff_fffd;
    let hint = LegalActionHint {
        legal_actions: state.legal_actions.clone(),
    };
    let action = choose_action(&state, &hint);
    assert_eq!(action.kind, ActionKind::Place);
    assert!(hint.legal_actions.contains(&action.position.expect("position")));
}
