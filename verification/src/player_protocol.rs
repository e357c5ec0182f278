use vstd::prelude::*;

use crate::protocol::{GameMetadata, Transport};

verus! {

pub const METHOD_INIT: &'static str = "init";

pub const METHOD_TURN: &'static str = "turn";

pub const METHOD_GAME_OVER: &'static str = "game_over";

/// Parameters of a player's `init` request.
#[derive(Debug, Clone, PartialEq, Eq)]
pub struct InitParams<State> {
    pub match_id: String,
    pub player_id: String,
    pub game_id: String,
    pub game_version: String,
    pub ruleset_version: String,
    pub deadline_ms: u64,
    pub state: State,
}

/// Parameters of a player's `turn` request.
#[derive(Debug, Clone, PartialEq, Eq)]
pub struct TurnParams<State, Hint> {
    pub turn: i32,
    pub visible_state: State,
    pub legal_action_hint: Hint,
    pub deadline_ms: u64,
}

/// Parameters of a player's `game_over` notification.
#[derive(Debug, Clone, PartialEq, Eq)]
pub struct GameOverParams<State, Summary> {
    pub match_id: String,
    pub final_visible_state: State,
    pub summary: Summary,
    pub shutdown_after_ms: u64,
}

/// A player's answer to `init`.
#[derive(Debug, Clone, Copy, PartialEq, Eq, Structural)]
pub struct InitResult {
    pub ready: bool,
}

/// A player's answer to `turn`.
#[derive(Debug, Clone, PartialEq, Eq)]
pub struct TurnResult<A> {
    pub action: A,
}

/// A player's answer to `game_over`.
#[derive(Debug, Clone, Copy, PartialEq, Eq, Structural)]
pub struct GameOverResult {
    pub ack: bool,
}

/// How a player describes itself to the runner.
#[derive(Debug, Clone, PartialEq, Eq)]
pub struct SidecarManifest {
    pub ai_id: Option<String>,
    pub protocol: SidecarProtocol,
    pub runtime: Runtime,
}

/// The protocol a player speaks and the game it plays.
#[derive(Debug, Clone, PartialEq, Eq)]
pub struct SidecarProtocol {
    pub transport: Transport,
    pub game_id: String,
    pub game_version: String,
    pub ruleset_version: String,
}

/// How the runner starts a player.
#[derive(Debug, Clone, PartialEq, Eq)]
pub enum Runtime {
    LocalSubprocess { command: Vec<String> },
    WasmWasi { module: String, args: Vec<String>, memory_limit_pages: Option<u32> },
}

impl SidecarProtocol {
    /// The game metadata this protocol entry names.
    pub fn metadata(&self) -> (m: GameMetadata)
        ensures
            m.game_id@ == self.game_id@,
            m.game_version@ == self.game_version@,
            m.ruleset_version@ == self.ruleset_version@,
    {
        GameMetadata {
            game_id: self.game_id.clone(),
            game_version: self.game_version.clone(),
            ruleset_version: self.ruleset_version.clone(),
        }
    }
}

impl InitResult {
    /// A player ready to play.
    pub fn ready() -> (r: Self)
        ensures
            r.ready,
    {
        InitResult { ready: true }
    }
}

impl GameOverResult {
    /// An acknowledged end of match.
    pub fn ack() -> (r: Self)
        ensures
            r.ack,
    {
        GameOverResult { ack: true }
    }
}

} // verus!
