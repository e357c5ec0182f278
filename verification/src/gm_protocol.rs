use vstd::prelude::*;

use crate::player_map::PlayerMap;

verus! {

pub const METHOD_METADATA: &'static str = "metadata";

pub const METHOD_INITIALIZE_MATCH: &'static str = "initialize_match";

pub const METHOD_NEXT_DECISION_STEP: &'static str = "next_decision_step";

pub const METHOD_NORMALIZE_ACTION: &'static str = "normalize_action";

pub const METHOD_APPLY_DECISION_RESULTS: &'static str = "apply_decision_results";

pub const METHOD_CURRENT_SNAPSHOT: &'static str = "current_snapshot";

pub const METHOD_CURRENT_EXPORTED_SNAPSHOT: &'static str = "current_exported_snapshot";

pub const METHOD_CURRENT_RESULT: &'static str = "current_result";

pub const METHOD_SHUTDOWN: &'static str = "shutdown";

/// A seat of a match: the player id and the AI behind it.
#[derive(Debug, Clone, PartialEq, Eq)]
pub struct Player {
    pub player_id: String,
    pub ai_id: String,
}

/// Whether the players of a step decide one after the other or together.
#[derive(Debug, Clone, Copy, PartialEq, Eq, Structural)]
pub enum DecisionMode {
    Sequential,
    Simultaneous,
}

/// Per-player initial state, keyed by player id.
#[derive(Debug, PartialEq, Eq)]
pub struct InitState<T> {
    pub per_player: PlayerMap<T>,
}

/// A request for one player's decision.
#[derive(Debug, Clone, PartialEq, Eq)]
pub struct DecisionRequest<State, Hint> {
    pub player_id: String,
    pub visible_state: Option<State>,
    pub legal_action_hint: Option<Hint>,
    pub deadline_ms: u64,
}

/// The decisions a turn asks for.
#[derive(Debug, Clone, PartialEq, Eq)]
pub struct DecisionStep<State, Hint> {
    pub turn: i32,
    pub mode: DecisionMode,
    pub requests: Vec<DecisionRequest<State, Hint>>,
}

/// The lifecycle stage of a match.
#[derive(Debug, Clone, Copy, PartialEq, Eq, Structural)]
pub enum MatchStatus {
    Starting,
    Initializing,
    Running,
    Finishing,
    Completed,
    Failed,
    Canceled,
}

/// Whether a player's answer was taken.
#[derive(Debug, Clone, Copy, PartialEq, Eq, Structural)]
pub enum ActionDecision {
    Accepted,
    NoAction,
}

/// Why a player's answer was not taken.
#[derive(Debug, Clone, Copy, PartialEq, Eq, Structural)]
pub enum FailureReason {
    InvalidTimeout,
    InvalidProtocolMalformed,
    InvalidProtocolMismatchedId,
    InvalidProtocolLateResponse,
    InvalidIllegalAction,
    RuntimeStopped,
}

/// The fate of one player's answer, with the action when it was taken.
#[derive(Debug, Clone, PartialEq, Eq)]
pub struct ActionStatus<A> {
    pub player_id: String,
    pub action_status: ActionDecision,
    pub failure_reason: Option<FailureReason>,
    pub action: Option<A>,
}

/// A player's final place; equal places mean a shared rank.
#[derive(Debug, Clone, PartialEq, Eq)]
pub struct Placement {
    pub player_id: String,
    pub place: i32,
}

/// The final places of a match.
#[derive(Debug, Clone, PartialEq, Eq)]
pub struct MatchResult {
    pub placements: Vec<Placement>,
}

/// What the game master keeps about one player.
#[derive(Debug, Clone, PartialEq, Eq)]
pub struct PlayerSnapshot<State, A> {
    pub visible_state: Option<State>,
    pub last_action_status: ActionStatus<A>,
    pub stderr_bytes: i32,
}

/// The internal snapshot of a match, enough to resume it.
#[derive(Debug, PartialEq, Eq)]
pub struct Snapshot<GameState, State, A> {
    pub match_id: String,
    pub game_id: Option<String>,
    pub game_version: Option<String>,
    pub ruleset_version: Option<String>,
    pub turn: i32,
    pub status: MatchStatus,
    pub game_state: Option<GameState>,
    pub per_player: PlayerMap<PlayerSnapshot<State, A>>,
}

/// The replay-safe part of what the game master keeps about one player.
#[derive(Debug, Clone, PartialEq, Eq)]
pub struct ExportedPlayerSnapshot<A> {
    pub player_id: String,
    pub last_action_status: ActionStatus<A>,
}

/// The replay-safe snapshot of a match.
#[derive(Debug, Clone, PartialEq, Eq)]
pub struct ExportedSnapshot<PublicState, A> {
    pub match_id: String,
    pub game_id: Option<String>,
    pub game_version: Option<String>,
    pub ruleset_version: Option<String>,
    pub turn: i32,
    pub status: MatchStatus,
    pub public_state: Option<PublicState>,
    pub players: Vec<ExportedPlayerSnapshot<A>>,
}

/// Parameters of `initialize_match`.
#[derive(Debug, PartialEq, Eq)]
pub struct InitializeMatchParams<GameState, State, A> {
    pub players: Vec<Player>,
    pub rng_seed: Option<String>,
    pub resume_snapshot: Option<Snapshot<GameState, State, A>>,
}

/// Result of `initialize_match`.
#[derive(Debug, PartialEq, Eq)]
pub struct InitializeMatchResult<T> {
    pub init_state: InitState<T>,
}

/// Parameters of `normalize_action`.
#[derive(Debug, Clone, PartialEq, Eq)]
pub struct NormalizeActionParams<State, Hint, A> {
    pub request: DecisionRequest<State, Hint>,
    pub action_status: ActionStatus<A>,
}

/// Parameters of `apply_decision_results`.
#[derive(Debug, Clone, PartialEq, Eq)]
pub struct ApplyDecisionResultsParams<State, Hint, A> {
    pub step: DecisionStep<State, Hint>,
    pub action_statuses: Vec<ActionStatus<A>>,
}

} // verus!
