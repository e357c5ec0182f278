use reversi_ai_arena::player_protocol::TurnParams;
use reversi_ai_arena::script::{choose_first_legal, parse_script_tokens, ScriptToken, ScriptedStrategy};
use reversi_ai_arena::types::{
    sample_visible_state, Action, ActionKind, LegalActionHint, Position, ReversiPlayerTurnParams,
};

fn params(legal: Vec<Position>) -> ReversiPlayerTurnParams {
    TurnParams {
        turn: 1,
        visible_state: sample_visible_state(),
        legal_action_hint: LegalActionHint {
            legal_actions: legal,
        },
        deadline_ms: 1000,
    }
}

#[test]
fn script_line_parses_into_positions() {
    let tokens = parse_script_tokens("c4e3pass").expect("tokens");
    assert_eq!(
        tokens,
        vec![
            ScriptToken::Move(Position { row: 3, col: 2 }),
            ScriptToken::Move(Position { row: 2, col: 4 }),
            ScriptToken::Pass,
        ]
    );
}

#[test]
fn script_errors_name_the_offending_token() {
    assert_eq!(
        parse_script_tokens("c4e").unwrap_err(),
        "trailing move fragment at byte 2"
    );
    assert_eq!(parse_script_tokens("i1").unwrap_err(), "invalid file i1");
    assert_eq!(parse_script_tokens("a9").unwrap_err(), "invalid rank a9");
    assert_eq!(parse_script_tokens("é").unwrap_err(), "invalid file é");
    assert_eq!(
        parse_script_tokens("a1\u{20ac}").unwrap_err(),
        "non-ascii move token at byte 2"
    );
    assert_eq!(parse_script_tokens("").expect("empty"), vec![]);
    assert_eq!(
        parse_script_tokens("passh8").expect("tokens"),
        vec![ScriptToken::Pass, ScriptToken::Move(Position { row: 7, col: 7 })]
    );
}

#[test]
fn scripted_strategy_plays_script_then_first_legal() {
    let mut strategy = ScriptedStrategy::from_moves("d3pass").expect("script");
    let p = params(vec![Position { row: 5, col: 4 }]);
    assert_eq!(
        strategy.next_action(&p),
        Action {
            kind: ActionKind::Place,
            position: Some(Position { row: 2, col: 3 })
        }
    );
    assert_eq!(
        strategy.next_action(&p),
        Action {
            kind: ActionKind::Pass,
            position: None
        }
    );
    assert_eq!(
        strategy.next_action(&p),
        Action {
            kind: ActionKind::Place,
            position: Some(Position { row: 5, col: 4 })
        }
    );
    assert_eq!(
        strategy.next_action(&params(vec![])),
        Action {
            kind: ActionKind::Pass,
            position: None
        }
    );
    assert!(ScriptedStrategy::from_moves("z1").is_err());
}

#[test]
fn first_legal_picks_first_hint_or_passes() {
    let p = params(vec![Position { row: 1, col: 2 }, Position { row: 0, col: 0 }]);
    assert_eq!(choose_first_legal(&p).position, Some(Position { row: 1, col: 2 }));
    assert_eq!(choose_first_legal(&params(vec![])).kind, ActionKind::Pass);
}
