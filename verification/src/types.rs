use vstd::prelude::*;

use crate::player_protocol::{GameOverParams, InitParams, TurnParams, TurnResult};
use crate::protocol::GameMetadata;
use crate::text::string_from;

verus! {

/// Identifier of the game.
pub const GAME_ID: &'static str = "reversi";

/// Version of the game rules surface.
pub const GAME_VERSION: &'static str = "1.0.0";

/// The only ruleset this crate plays.
pub const RULESET_VERSION: &'static str = "standard";

/// The content of one board square.
#[derive(Debug, Clone, Copy, PartialEq, Eq, Structural)]
pub enum Disc {
    Empty,
    Black,
    White,
}

/// One of the two sides.
#[derive(Debug, Clone, Copy, PartialEq, Eq, Structural)]
pub enum PlayerColor {
    Black,
    White,
}

/// The other side.
pub open spec fn spec_opponent(c: PlayerColor) -> PlayerColor {
    match c {
        PlayerColor::Black => PlayerColor::White,
        PlayerColor::White => PlayerColor::Black,
    }
}

/// The disc a side places.
pub open spec fn spec_disc(c: PlayerColor) -> Disc {
    match c {
        PlayerColor::Black => Disc::Black,
        PlayerColor::White => Disc::White,
    }
}

impl PlayerColor {
    /// The other side.
    pub fn opponent(self) -> (r: PlayerColor)
        ensures
            r == spec_opponent(self),
    {
        match self {
            PlayerColor::Black => PlayerColor::White,
            PlayerColor::White => PlayerColor::Black,
        }
    }

    /// The disc this side places.
    pub fn disc(self) -> (r: Disc)
        ensures
            r == spec_disc(self),
    {
        match self {
            PlayerColor::Black => Disc::Black,
            PlayerColor::White => Disc::White,
        }
    }
}

/// A board square, zero-based: `row` is the rank, `col` the file.
#[derive(Debug, Clone, Copy, PartialEq, Eq, Structural)]
pub struct Position {
    pub row: u8,
    pub col: u8,
}

/// A disc that stands on a square when the match starts.
#[derive(Debug, Clone, Copy, PartialEq, Eq, Structural)]
pub struct DiscPlacement {
    pub position: Position,
    pub disc: Disc,
}

/// Disc counts of both sides.
#[derive(Debug, Clone, Copy, PartialEq, Eq, Structural)]
pub struct ScoreSummary {
    pub black: u8,
    pub white: u8,
}

/// What a player learns when the match starts.
#[derive(Debug, Clone, PartialEq, Eq)]
pub struct InitState {
    pub you_are: PlayerColor,
    pub board_size: u8,
    pub opening: Vec<DiscPlacement>,
    pub ruleset: String,
}

/// What a player sees when it is asked for a decision.
#[derive(Debug, Clone, PartialEq, Eq)]
pub struct VisibleState {
    pub turn: u32,
    pub board: Vec<Vec<Disc>>,
    pub current_player: Option<PlayerColor>,
    pub legal_actions: Vec<Position>,
    pub scores: ScoreSummary,
}

/// The legal placements that go with a decision request.
#[derive(Debug, Clone, PartialEq, Eq)]
pub struct LegalActionHint {
    pub legal_actions: Vec<Position>,
}

/// Whether an action places a disc or passes.
#[derive(Debug, Clone, Copy, PartialEq, Eq, Structural)]
pub enum ActionKind {
    Place,
    Pass,
}

/// A player's decision: a placement carries its square, a pass none.
#[derive(Debug, Clone, Copy, PartialEq, Eq, Structural)]
pub struct Action {
    pub kind: ActionKind,
    pub position: Option<Position>,
}

/// The replay-safe state of a match.
#[derive(Debug, Clone, PartialEq, Eq)]
pub struct PublicState {
    pub turn: u32,
    pub board: Vec<Vec<Disc>>,
    pub current_player: Option<PlayerColor>,
    pub scores: ScoreSummary,
    pub completed: bool,
}

/// Final disc counts and the winning side or sides.
#[derive(Debug, Clone, PartialEq, Eq)]
pub struct GameSummary {
    pub black: u8,
    pub white: u8,
    pub winners: Vec<PlayerColor>,
}

/// The metadata of this game: `reversi`, version `1.0.0`, ruleset `standard`.
pub fn game_metadata() -> (m: GameMetadata)
    ensures
        m.game_id@ == GAME_ID@,
        m.game_version@ == GAME_VERSION@,
        m.ruleset_version@ == RULESET_VERSION@,
{
    GameMetadata {
        game_id: string_from(GAME_ID),
        game_version: string_from(GAME_VERSION),
        ruleset_version: string_from(RULESET_VERSION),
    }
}

/// The rows of the 4x4 sample board: white and black discs crossed in the centre.
pub open spec fn sample_rows() -> Seq<Seq<Disc>> {
    seq![
        seq![Disc::Empty, Disc::Empty, Disc::Empty, Disc::Empty],
        seq![Disc::Empty, Disc::White, Disc::Black, Disc::Empty],
        seq![Disc::Empty, Disc::Black, Disc::White, Disc::Empty],
        seq![Disc::Empty, Disc::Empty, Disc::Empty, Disc::Empty],
    ]
}

fn disc_row(a: Disc, b: Disc, c: Disc, d: Disc) -> (v: Vec<Disc>)
    ensures
        v@ == seq![a, b, c, d],
{
    let mut v = Vec::new();
    v.push(a);
    v.push(b);
    v.push(c);
    v.push(d);
    v
}

/// A small visible state for examples: a 4x4 board on turn one, black to
/// move with two listed placements and two discs each.
pub fn sample_visible_state() -> (v: VisibleState)
    ensures
        v.turn == 1,
        v.board@.len() == 4,
        forall|r: int| 0 <= r < 4 ==> (#[trigger] v.board@[r])@ == sample_rows()[r],
        v.current_player == Some(PlayerColor::Black),
        v.legal_actions@ == seq![Position { row: 0, col: 1 }, Position { row: 1, col: 0 }],
        v.scores == (ScoreSummary { black: 2, white: 2 }),
{
    let mut board: Vec<Vec<Disc>> = Vec::new();
    board.push(disc_row(Disc::Empty, Disc::Empty, Disc::Empty, Disc::Empty));
    board.push(disc_row(Disc::Empty, Disc::White, Disc::Black, Disc::Empty));
    board.push(disc_row(Disc::Empty, Disc::Black, Disc::White, Disc::Empty));
    board.push(disc_row(Disc::Empty, Disc::Empty, Disc::Empty, Disc::Empty));
    let mut legal_actions = Vec::new();
    legal_actions.push(Position { row: 0, col: 1 });
    legal_actions.push(Position { row: 1, col: 0 });
    VisibleState {
        turn: 1,
        board,
        current_player: Some(PlayerColor::Black),
        legal_actions,
        scores: ScoreSummary { black: 2, white: 2 },
    }
}

/// What a Reversi player receives with `init`.
pub type ReversiPlayerInitParams = InitParams<InitState>;

/// What a Reversi player receives with `turn`.
pub type ReversiPlayerTurnParams = TurnParams<VisibleState, LegalActionHint>;

/// A Reversi player's answer to `turn`.
pub type ReversiPlayerTurnResult = TurnResult<Action>;

/// What a Reversi player receives with `game_over`.
pub type ReversiPlayerGameOverParams = GameOverParams<VisibleState, GameSummary>;

} // verus!
