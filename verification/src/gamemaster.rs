use vstd::prelude::*;

use crate::engine::{
    forfeited, is_public_state, is_visible_state, spec_apply, spec_winners, standard_board, GameModel, MatchState,
};
use crate::gm_protocol::{
    ActionDecision, ActionStatus, DecisionMode, DecisionRequest, DecisionStep, ExportedPlayerSnapshot,
    ExportedSnapshot, FailureReason, InitState as PlayerInitStates, MatchResult, MatchStatus,
    Placement, Player, PlayerSnapshot, Snapshot,
};
use crate::engine_laws::law_legal_iff_accepted;
use crate::player_map::PlayerMap;
use crate::text::{push_str, string_from};
use crate::types::{
    spec_opponent, Action, ActionKind, Disc, DiscPlacement, InitState, LegalActionHint, PlayerColor,
    Position, PublicState, VisibleState, GAME_ID, GAME_VERSION, RULESET_VERSION,
};

verus! {

/// How long a player has for one decision.
pub const DECISION_DEADLINE_MS: u64 = 1000;

/// The game master's record of one player's answer.
pub type ReversiActionStatus = ActionStatus<Action>;

/// The per-player initial states of a match.
pub type ReversiGameMasterInitState = PlayerInitStates<InitState>;

/// A Reversi decision step.
pub type ReversiDecisionStep = DecisionStep<VisibleState, LegalActionHint>;

/// A Reversi decision request.
pub type ReversiDecisionRequest = DecisionRequest<VisibleState, LegalActionHint>;

/// The replay-safe snapshot of a Reversi match.
pub type ReversiExportedSnapshot = ExportedSnapshot<PublicState, Action>;

/// The internal snapshot of a Reversi match.
pub type ReversiSnapshot = Snapshot<SnapshotState, VisibleState, Action>;

/// The match state as a snapshot stores it, enough to resume the match.
#[derive(Debug, Clone, Copy, PartialEq, Eq)]
pub struct SnapshotState {
    pub board: [[Disc; 8]; 8],
    pub current_player: Option<PlayerColor>,
    pub turn: i32,
    pub consecutive_passes: u8,
    pub completed: bool,
    pub winner_by_forfeit: Option<PlayerColor>,
}

/// The snapshot of a match state, field for field.
pub open spec fn snapshot_of(s: MatchState) -> SnapshotState {
    SnapshotState {
        board: s.board,
        current_player: s.current_player,
        turn: s.turn,
        consecutive_passes: s.consecutive_passes,
        completed: s.completed,
        winner_by_forfeit: s.winner_by_forfeit,
    }
}

/// The match state a snapshot describes, field for field.
pub open spec fn state_of(s: SnapshotState) -> MatchState {
    MatchState {
        board: s.board,
        current_player: s.current_player,
        turn: s.turn,
        consecutive_passes: s.consecutive_passes,
        completed: s.completed,
        winner_by_forfeit: s.winner_by_forfeit,
    }
}

impl From<&MatchState> for SnapshotState {
    fn from(value: &MatchState) -> (r: SnapshotState) {
        SnapshotState {
            board: value.board,
            current_player: value.current_player,
            turn: value.turn,
            consecutive_passes: value.consecutive_passes,
            completed: value.completed,
            winner_by_forfeit: value.winner_by_forfeit,
        }
    }
}

impl vstd::std_specs::convert::FromSpecImpl<&MatchState> for SnapshotState {
    open spec fn obeys_from_spec() -> bool {
        true
    }

    open spec fn from_spec(v: &MatchState) -> SnapshotState {
        snapshot_of(*v)
    }
}

impl From<SnapshotState> for MatchState {
    fn from(value: SnapshotState) -> (r: MatchState) {
        MatchState {
            board: value.board,
            current_player: value.current_player,
            turn: value.turn,
            consecutive_passes: value.consecutive_passes,
            completed: value.completed,
            winner_by_forfeit: value.winner_by_forfeit,
        }
    }
}

impl vstd::std_specs::convert::FromSpecImpl<SnapshotState> for MatchState {
    open spec fn obeys_from_spec() -> bool {
        true
    }

    open spec fn from_spec(v: SnapshotState) -> MatchState {
        state_of(v)
    }
}

/// The colours of the two seats: the first player black, the second white
/// (a second seat with the same id takes that id over for white).
pub open spec fn seat_colors(players: Seq<Player>) -> Map<Seq<char>, PlayerColor> {
    Map::<Seq<char>, PlayerColor>::empty().insert(players[0].player_id@, PlayerColor::Black).insert(
        players[1].player_id@,
        PlayerColor::White,
    )
}

/// The id of the player who plays `color`, if any.
pub open spec fn seat_of(players: Seq<Player>, color: PlayerColor) -> Option<Seq<char>> {
    if players[0].player_id@ == players[1].player_id@ {
        if color == PlayerColor::White {
            Some(players[1].player_id@)
        } else {
            None
        }
    } else {
        match color {
            PlayerColor::Black => Some(players[0].player_id@),
            PlayerColor::White => Some(players[1].player_id@),
        }
    }
}

/// Two action statuses that say the same.
pub open spec fn same_status(a: ReversiActionStatus, b: ReversiActionStatus) -> bool {
    &&& a.player_id@ == b.player_id@
    &&& a.action_status == b.action_status
    &&& a.failure_reason == b.failure_reason
    &&& a.action == b.action
}

/// The status of a player that has not answered yet.
pub open spec fn is_no_action_yet(s: ReversiActionStatus, id: Seq<char>) -> bool {
    &&& s.player_id@ == id
    &&& s.action_status == ActionDecision::NoAction
    &&& s.failure_reason is None
    &&& s.action is None
}

/// The opening placements that every player is told about.
pub open spec fn opening_placements() -> Seq<DiscPlacement> {
    seq![
        DiscPlacement { position: Position { row: 3, col: 3 }, disc: Disc::White },
        DiscPlacement { position: Position { row: 3, col: 4 }, disc: Disc::Black },
        DiscPlacement { position: Position { row: 4, col: 3 }, disc: Disc::Black },
        DiscPlacement { position: Position { row: 4, col: 4 }, disc: Disc::White },
    ]
}

/// The initial state a player of `color` receives.
pub open spec fn is_player_init_state(s: InitState, color: PlayerColor) -> bool {
    &&& s.you_are == color
    &&& s.board_size == 8
    &&& s.opening@ == opening_placements()
    &&& s.ruleset@ == RULESET_VERSION@
}

/// The model of the state a match starts from: the standard opening.
pub open spec fn standard_model() -> GameModel {
    GameModel {
        board: standard_board(),
        current_player: Some(PlayerColor::Black),
        turn: 1,
        consecutive_passes: 0,
        completed: false,
        winner_by_forfeit: None,
    }
}

/// What an answer of a player is once it reached the game master: a Reversi
/// action, or a payload that could not be read as one.
#[derive(Debug, Clone, Copy, PartialEq, Eq, Structural)]
pub enum TurnPayload {
    Decoded(Action),
    Malformed,
}

/// The verdict on a player's answer: whether it is taken, why not, and the
/// action when it is.
pub open spec fn normalized(
    colors: Map<Seq<char>, PlayerColor>,
    state: MatchState,
    request_player: Seq<char>,
    status: ActionStatus<TurnPayload>,
) -> (ActionDecision, Option<FailureReason>, Option<Action>) {
    if status.action_status != ActionDecision::Accepted {
        (status.action_status, status.failure_reason, None)
    } else {
        match status.action {
            None => (ActionDecision::NoAction, Some(FailureReason::InvalidIllegalAction), None),
            Some(TurnPayload::Malformed) => (
                ActionDecision::NoAction,
                Some(FailureReason::InvalidProtocolMalformed),
                None,
            ),
            Some(TurnPayload::Decoded(action)) => {
                if !colors.contains_key(request_player) {
                    (
                        ActionDecision::NoAction,
                        Some(FailureReason::InvalidProtocolMalformed),
                        None,
                    )
                } else if !crate::engine::spec_is_legal_action(
                    state@,
                    colors[request_player],
                    action,
                ) {
                    (ActionDecision::NoAction, Some(FailureReason::InvalidIllegalAction), None)
                } else {
                    (ActionDecision::Accepted, status.failure_reason, Some(action))
                }
            },
        }
    }
}

/// The index of the first status for player `id` among the first `n`.
pub open spec fn first_status_for(s: Seq<ReversiActionStatus>, id: Seq<char>, n: nat) -> Option<int>
    decreases n,
{
    if n == 0 {
        None
    } else {
        match first_status_for(s, id, (n - 1) as nat) {
            Some(i) => Some(i),
            None => if s[n - 1].player_id@ == id {
                Some(n - 1)
            } else {
                None
            },
        }
    }
}

/// The game master of one Reversi match: the two seats, the match state, and
/// what it last heard from each player.
#[derive(Debug)]
pub struct ReversiGameMaster {
    match_id: String,
    players: Vec<Player>,
    player_colors: PlayerMap<PlayerColor>,
    state: MatchState,
    last_action_statuses: PlayerMap<ReversiActionStatus>,
    stderr_bytes: PlayerMap<i32>,
}

fn no_action_status(player_id: String) -> (s: ReversiActionStatus)
    ensures
        is_no_action_yet(s, player_id@),
{
    ActionStatus {
        player_id,
        action_status: ActionDecision::NoAction,
        failure_reason: None,
        action: None,
    }
}

fn copy_status(s: &ReversiActionStatus) -> (c: ReversiActionStatus)
    ensures
        same_status(c, *s),
        c == *s,
{
    ActionStatus {
        player_id: s.player_id.clone(),
        action_status: s.action_status,
        failure_reason: s.failure_reason,
        action: s.action,
    }
}

impl ReversiGameMaster {
    #[verifier::type_invariant]
    spec fn inv(self) -> bool {
        &&& self.players@.len() == 2
        &&& self.player_colors@ == seat_colors(self.players@)
        &&& forall|k: Seq<char>|
            #[trigger] self.player_colors@.contains_key(k)
                ==> self.last_action_statuses@.contains_key(k)
    }

    /// The match id.
    pub closed spec fn match_id_view(&self) -> Seq<char> {
        self.match_id@
    }

    /// The two seats.
    pub closed spec fn players_view(&self) -> Seq<Player> {
        self.players@
    }

    /// The match state.
    pub closed spec fn state_view(&self) -> MatchState {
        self.state
    }

    /// The colour of each player id.
    pub closed spec fn colors_view(&self) -> Map<Seq<char>, PlayerColor> {
        self.player_colors@
    }

    /// The last answer status of each player id.
    pub closed spec fn statuses_view(&self) -> Map<Seq<char>, ReversiActionStatus> {
        self.last_action_statuses@
    }

    /// The stderr byte count of each player id.
    pub closed spec fn stderr_view(&self) -> Map<Seq<char>, i32> {
        self.stderr_bytes@
    }

    /// The match id.
    pub fn match_id(&self) -> (m: &String)
        ensures
            m@ == self.match_id_view(),
    {
        &self.match_id
    }

    /// The two seats.
    pub fn players(&self) -> (p: &Vec<Player>)
        ensures
            p@ == self.players_view(),
            p@.len() == 2,
            self.colors_view() == seat_colors(p@),
    {
        proof {
            use_type_invariant(self);
        }
        &self.players
    }

    /// The match state.
    pub fn state(&self) -> (s: &MatchState)
        ensures
            *s == self.state_view(),
    {
        &self.state
    }

    /// The colour of each player id.
    pub fn player_colors(&self) -> (c: &PlayerMap<PlayerColor>)
        ensures
            c@ == self.colors_view(),
    {
        &self.player_colors
    }

    /// The last answer status of each player id.
    pub fn last_action_statuses(&self) -> (c: &PlayerMap<ReversiActionStatus>)
        ensures
            c@ == self.statuses_view(),
    {
        &self.last_action_statuses
    }

    /// The stderr byte count of each player id.
    pub fn stderr_bytes(&self) -> (c: &PlayerMap<i32>)
        ensures
            c@ == self.stderr_view(),
    {
        &self.stderr_bytes
    }

    /// Seats two players, the first as black and the second as white, starts
    /// from `resume_snapshot` or the standard opening, and tells each player
    /// its colour, the board size, the opening and the ruleset.
    pub fn initialize(
        match_id: String,
        players: Vec<Player>,
        resume_snapshot: Option<SnapshotState>,
    ) -> (r: Result<(ReversiGameMaster, ReversiGameMasterInitState), String>)
        ensures
            players@.len() != 2 <==> r is Err,
            r matches Err(e) ==> e@ == "reversi requires exactly two players"@,
            r matches Ok((gm, init)) ==> {
                &&& gm.match_id_view() == match_id@
                &&& gm.players_view() == players@
                &&& gm.colors_view() == seat_colors(players@)
                &&& gm.state_view()@ == match resume_snapshot {
                    Some(s) => state_of(s)@,
                    None => standard_model(),
                }
                &&& gm.statuses_view().dom() == seat_colors(players@).dom()
                &&& forall|k: Seq<char>|
                    #[trigger] gm.statuses_view().contains_key(k) ==> is_no_action_yet(
                        gm.statuses_view()[k],
                        k,
                    )
                &&& gm.stderr_view().dom() == seat_colors(players@).dom()
                &&& forall|k: Seq<char>|
                    #[trigger] gm.stderr_view().contains_key(k) ==> gm.stderr_view()[k] == 0
                &&& init.per_player@.dom() == seat_colors(players@).dom()
                &&& forall|k: Seq<char>|
                    #[trigger] init.per_player@.contains_key(k) ==> is_player_init_state(
                        init.per_player@[k],
                        seat_colors(players@)[k],
                    )
            },
    {
        if players.len() != 2 {
            return Err(string_from("reversi requires exactly two players"));
        }
        let ghost colors = seat_colors(players@);
        let mut player_colors: PlayerMap<PlayerColor> = PlayerMap::new();
        player_colors.insert(players[0].player_id.clone(), PlayerColor::Black);
        player_colors.insert(players[1].player_id.clone(), PlayerColor::White);
        assert(player_colors@ =~= colors);
        let state = match resume_snapshot {
            Some(s) => MatchState::from(s),
            None => MatchState::new_standard(),
        };
        proof {
            if resume_snapshot is None {
                assert(state@ =~~= standard_model());
            }
        }
        let mut per_player: PlayerMap<InitState> = PlayerMap::new();
        let mut last_action_statuses: PlayerMap<ReversiActionStatus> = PlayerMap::new();
        let mut stderr_bytes: PlayerMap<i32> = PlayerMap::new();
        let mut i: usize = 0;
        while i < 2
            invariant
                0 <= i <= 2,
                players@.len() == 2,
                colors == seat_colors(players@),
                player_colors@ == colors,
                forall|k: Seq<char>|
                    #[trigger] per_player@.contains_key(k) <==> exists|j: int|
                        0 <= j < i && players@[j].player_id@ == k,
                forall|k: Seq<char>|
                    #[trigger] last_action_statuses@.contains_key(k) <==> exists|j: int|
                        0 <= j < i && players@[j].player_id@ == k,
                forall|k: Seq<char>|
                    #[trigger] stderr_bytes@.contains_key(k) <==> exists|j: int|
                        0 <= j < i && players@[j].player_id@ == k,
                forall|k: Seq<char>|
                    #[trigger] per_player@.contains_key(k) ==> colors.contains_key(k)
                        && is_player_init_state(per_player@[k], colors[k]),
                forall|k: Seq<char>|
                    #[trigger] last_action_statuses@.contains_key(k) ==> is_no_action_yet(
                        last_action_statuses@[k],
                        k,
                    ),
                forall|k: Seq<char>|
                    #[trigger] stderr_bytes@.contains_key(k) ==> stderr_bytes@[k] == 0,
            decreases 2 - i,
        {
            let id = players[i].player_id.clone();
            let color = match player_colors.get(&id) {
                Some(c) => *c,
                None => {
                    proof {
                        assert(colors.contains_key(players@[i as int].player_id@));
                    }
                    PlayerColor::Black
                },
            };
            let opening = MatchState::opening();
            let ruleset = string_from(RULESET_VERSION);
            per_player.insert(
                id.clone(),
                InitState { you_are: color, board_size: 8, opening, ruleset },
            );
            last_action_statuses.insert(id.clone(), no_action_status(id.clone()));
            stderr_bytes.insert(id, 0);
            proof {
                assert(players@[i as int].player_id@ == id@);
            }
            i = i + 1;
        }
        proof {
            assert(per_player@.dom() =~= colors.dom());
            assert(last_action_statuses@.dom() =~= colors.dom());
            assert(stderr_bytes@.dom() =~= colors.dom());
        }
        Ok(
            (
                ReversiGameMaster {
                    match_id,
                    players,
                    player_colors,
                    state,
                    last_action_statuses,
                    stderr_bytes,
                },
                PlayerInitStates { per_player },
            ),
        )
    }
}


/// The lifecycle stage a match state is in.
pub open spec fn spec_status(s: MatchState) -> MatchStatus {
    if s.completed {
        MatchStatus::Completed
    } else {
        MatchStatus::Running
    }
}

/// In the seat colours, `color` belongs exactly to the player `seat_of` names.
pub proof fn lemma_seat_of(players: Seq<Player>, color: PlayerColor)
    requires
        players.len() == 2,
    ensures
        match seat_of(players, color) {
            Some(id) => seat_colors(players).contains_key(id) && seat_colors(players)[id] == color,
            None => forall|k: Seq<char>|
                #[trigger] seat_colors(players).contains_key(k) ==> seat_colors(players)[k] != color,
        },
        forall|k: Seq<char>|
            #[trigger] seat_colors(players).contains_key(k) && seat_colors(players)[k] == color
                ==> seat_of(players, color) == Some(k),
{
}

impl ReversiGameMaster {
    /// The id of the player who plays `color`, if any.
    fn player_id_for_color(&self, color: PlayerColor) -> (r: Option<String>)
        ensures
            match r {
                Some(id) => seat_of(self.players_view(), color) == Some(id@),
                None => seat_of(self.players_view(), color) is None,
            },
    {
        proof {
            use_type_invariant(self);
            lemma_seat_of(self.players@, color);
        }
        let entries = self.player_colors.entries();
        let mut i: usize = 0;
        while i < entries.len()
            invariant
                0 <= i <= entries@.len(),
                crate::player_map::unique_keys(entries@),
                crate::player_map::entries_map(entries@) == seat_colors(self.players@),
                self.players@.len() == 2,
                forall|j: int| 0 <= j < i ==> (#[trigger] entries@[j]).1 != color,
            decreases entries@.len() - i,
        {
            if entries[i].1 == color {
                proof {
                    crate::player_map::lemma_entries_map(entries@);
                    lemma_seat_of(self.players@, color);
                    assert(seat_colors(self.players@).contains_key(entries@[i as int].0@));
                }
                return Some(entries[i].0.clone());
            }
            i = i + 1;
        }
        proof {
            crate::player_map::lemma_entries_map(entries@);
            lemma_seat_of(self.players@, color);
            if let Some(id) = seat_of(self.players@, color) {
                let j = choose|j: int| 0 <= j < entries@.len() && (#[trigger] entries@[j]).0@ == id;
                assert(crate::player_map::entries_map(entries@)[entries@[j].0@] == entries@[j].1);
            }
        }
        None
    }

    /// The decision the match asks for next: one request to the player whose
    /// colour is to move, with what that player sees and its legal
    /// placements; none once the match is over.
    pub fn next_decision_step(&self) -> (r: Option<ReversiDecisionStep>)
        ensures
            match self.state_view().current_player {
                None => r is None,
                Some(c) => match seat_of(self.players_view(), c) {
                    None => r is None,
                    Some(id) => r matches Some(step) && {
                        &&& step.turn == self.state_view().turn
                        &&& step.mode == DecisionMode::Sequential
                        &&& step.requests@.len() == 1
                        &&& step.requests@[0].player_id@ == id
                        &&& step.requests@[0].deadline_ms == DECISION_DEADLINE_MS
                        &&& step.requests@[0].visible_state matches Some(v) && is_visible_state(
                            v,
                            self.state_view(),
                            c,
                        )
                        &&& step.requests@[0].legal_action_hint matches Some(h)
                            && h.legal_actions@ == step.requests@[0].visible_state.unwrap().legal_actions@
                    },
                },
            },
    {
        let current = match self.state.current_player {
            Some(c) => c,
            None => {
                return None;
            },
        };
        let player_id = match self.player_id_for_color(current) {
            Some(id) => id,
            None => {
                return None;
            },
        };
        let visible_state = self.state.visible_state_for(current);
        let hint = self.state.visible_state_for(current).legal_actions;
        let request = DecisionRequest {
            player_id,
            visible_state: Some(visible_state),
            legal_action_hint: Some(LegalActionHint { legal_actions: hint }),
            deadline_ms: DECISION_DEADLINE_MS,
        };
        let mut requests = Vec::new();
        requests.push(request);
        Some(DecisionStep { turn: self.state.turn, mode: DecisionMode::Sequential, requests })
    }

    /// Judges a player's answer: an answer that was not accepted keeps its
    /// status; an accepted answer is taken only when it carries a readable
    /// action that is legal for the requested player's colour, and otherwise
    /// becomes no action with the reason. An empty player id is filled in
    /// from the request.
    pub fn normalize_action(
        &self,
        request: &ReversiDecisionRequest,
        status: &ActionStatus<TurnPayload>,
    ) -> (r: ReversiActionStatus)
        ensures
            r.player_id@ == if status.player_id@.len() == 0 {
                request.player_id@
            } else {
                status.player_id@
            },
            (r.action_status, r.failure_reason, r.action) == normalized(
                self.colors_view(),
                self.state_view(),
                request.player_id@,
                *status,
            ),
    {
        let mut normalized = ActionStatus {
            player_id: status.player_id.clone(),
            action_status: status.action_status,
            failure_reason: status.failure_reason,
            action: None,
        };
        if normalized.player_id.as_str().is_empty() {
            normalized.player_id = request.player_id.clone();
        }
        if normalized.action_status != ActionDecision::Accepted {
            return normalized;
        }
        let action = match status.action {
            None => {
                normalized.action_status = ActionDecision::NoAction;
                normalized.failure_reason = Some(FailureReason::InvalidIllegalAction);
                return normalized;
            },
            Some(TurnPayload::Malformed) => {
                normalized.action_status = ActionDecision::NoAction;
                normalized.failure_reason = Some(FailureReason::InvalidProtocolMalformed);
                normalized.action = None;
                return normalized;
            },
            Some(TurnPayload::Decoded(action)) => action,
        };
        let color = match self.player_colors.get(&request.player_id) {
            Some(c) => *c,
            None => {
                normalized.action_status = ActionDecision::NoAction;
                normalized.failure_reason = Some(FailureReason::InvalidProtocolMalformed);
                normalized.action = None;
                return normalized;
            },
        };
        if !self.state.is_legal_action(color, &action) {
            normalized.action_status = ActionDecision::NoAction;
            normalized.failure_reason = Some(FailureReason::InvalidIllegalAction);
            normalized.action = None;
        } else {
            normalized.action = Some(action);
        }
        normalized
    }

    /// `Completed` once the match is over, `Running` before.
    pub fn status(&self) -> (s: MatchStatus)
        ensures
            s == spec_status(self.state_view()),
    {
        if self.state.completed {
            MatchStatus::Completed
        } else {
            MatchStatus::Running
        }
    }
}


/// Whether applying the chosen answer keeps the turn and pass counters inside
/// their integer types.
pub open spec fn decision_fits(players: Seq<Player>, state: MatchState, statuses: Seq<ReversiActionStatus>) -> bool {
    match state.current_player {
        None => true,
        Some(c) => match seat_of(players, c) {
            None => true,
            Some(id) => match first_status_for(statuses, id, statuses.len()) {
                None => true,
                Some(i) => statuses[i].action_status == ActionDecision::Accepted ==> match statuses[i].action {
                    None => true,
                    Some(a) => spec_apply(state@, a) matches Ok(t) ==> t.turn <= i32::MAX
                        && t.consecutive_passes <= 255,
                },
            },
        },
    }
}

/// The place of player `id` at the end: first for a shared win or for the
/// winning colour, second otherwise.
pub open spec fn spec_place(colors: Map<Seq<char>, PlayerColor>, state: GameModel, id: Seq<char>) -> i32 {
    let w = spec_winners(state);
    if w.len() == 2 {
        1
    } else if colors[id] == w[0] {
        1
    } else {
        2
    }
}

proof fn lemma_first_status_for(s: Seq<ReversiActionStatus>, id: Seq<char>, n: nat)
    requires
        n <= s.len(),
    ensures
        match first_status_for(s, id, n) {
            Some(i) => 0 <= i < n && s[i].player_id@ == id && forall|j: int|
                0 <= j < i ==> (#[trigger] s[j]).player_id@ != id,
            None => forall|j: int| 0 <= j < n ==> (#[trigger] s[j]).player_id@ != id,
        },
    decreases n,
{
    if n > 0 {
        lemma_first_status_for(s, id, (n - 1) as nat);
    }
}

/// The index of the first status for player `id`.
fn first_status_index(statuses: &[ReversiActionStatus], id: &String) -> (r: Option<usize>)
    ensures
        r is None <==> first_status_for(statuses@, id@, statuses@.len()) is None,
        r matches Some(k) ==> first_status_for(statuses@, id@, statuses@.len()) == Some(k as int)
            && k < statuses@.len() && statuses@[k as int].player_id@ == id@,
{
    let mut i: usize = 0;
    while i < statuses.len()
        invariant
            0 <= i <= statuses@.len(),
            forall|j: int| 0 <= j < i ==> (#[trigger] statuses@[j]).player_id@ != id@,
        decreases statuses@.len() - i,
    {
        if statuses[i].player_id == *id {
            proof {
                lemma_first_status_for(statuses@, id@, statuses@.len());
                let f = first_status_for(statuses@, id@, statuses@.len());
                assert(f == Some(i as int)) by {
                    if f is None {
                        assert(statuses@[i as int].player_id@ != id@);
                    } else {
                        let fi = f.unwrap();
                        if fi < i {
                            assert(statuses@[fi].player_id@ != id@);
                        } else if fi > i {
                            assert(statuses@[i as int].player_id@ != id@);
                        }
                    }
                }
            }
            return Some(i);
        }
        i = i + 1;
    }
    proof {
        lemma_first_status_for(statuses@, id@, statuses@.len());
        let f = first_status_for(statuses@, id@, statuses@.len());
        if f is Some {
            assert(statuses@[f.unwrap()].player_id@ != id@);
        }
    }
    None
}

impl ReversiGameMaster {
    fn seat_statuses(&self) -> (m: PlayerMap<ReversiActionStatus>)
        ensures
            forall|k: Seq<char>|
                #[trigger] self.player_colors@.contains_key(k) ==> m@.contains_key(k),
    {
        proof {
            use_type_invariant(self);
        }
        let mut m: PlayerMap<ReversiActionStatus> = PlayerMap::new();
        let a = self.players[0].player_id.clone();
        let b = self.players[1].player_id.clone();
        m.insert(a.clone(), no_action_status(a));
        m.insert(b.clone(), no_action_status(b));
        m
    }

    /// Whether `apply_decision_results` can take `statuses` now: playing the
    /// answer it would choose keeps the turn and pass counters inside their
    /// integer types. A refused or unusable answer always fits.
    pub fn decision_fits_now(&self, statuses: &[ReversiActionStatus]) -> (b: bool)
        ensures
            b == decision_fits(self.players_view(), self.state_view(), statuses@),
    {
        let current = match self.state.current_player {
            Some(c) => c,
            None => {
                return true;
            },
        };
        let id = match self.player_id_for_color(current) {
            Some(id) => id,
            None => {
                return true;
            },
        };
        let k = match first_status_index(statuses, &id) {
            Some(k) => k,
            None => {
                return true;
            },
        };
        if statuses[k].action_status != ActionDecision::Accepted {
            return true;
        }
        let action = match statuses[k].action {
            Some(a) => a,
            None => {
                return true;
            },
        };
        proof {
            law_legal_iff_accepted(self.state@, current, action);
        }
        if !self.state.is_legal_action(current, &action) {
            return true;
        }
        match action.kind {
            ActionKind::Pass => self.state.turn < i32::MAX && self.state.consecutive_passes < 255,
            ActionKind::Place => self.state.turn < i32::MAX,
        }
    }

    /// Applies the answer of the player to move, found as the first status
    /// carrying that player's id: a stored status either way; an answer that
    /// was not accepted, or an accepted action the rules refuse, loses the
    /// match for that player; an accepted legal action is played.
    pub fn apply_decision_results(&mut self, statuses: &[ReversiActionStatus]) -> (r: Result<
        (),
        String,
    >)
        requires
            decision_fits(old(self).players_view(), old(self).state_view(), statuses@),
        ensures
            final(self).match_id_view() == old(self).match_id_view(),
            final(self).players_view() == old(self).players_view(),
            final(self).colors_view() == old(self).colors_view(),
            final(self).stderr_view() == old(self).stderr_view(),
            match old(self).state_view().current_player {
                None => r matches Err(e) && e@ == "match is already completed"@
                    && final(self).state_view() == old(self).state_view()
                    && final(self).statuses_view() == old(self).statuses_view(),
                Some(c) => match seat_of(old(self).players_view(), c) {
                    None => r matches Err(e) && e@ == "missing player for current color"@
                        && final(self).state_view() == old(self).state_view()
                        && final(self).statuses_view() == old(self).statuses_view(),
                    Some(id) => match first_status_for(statuses@, id, statuses@.len()) {
                        None => r matches Err(e) && e@ == "missing action status for "@ + id
                            && final(self).state_view() == old(self).state_view()
                            && final(self).statuses_view() == old(self).statuses_view(),
                        Some(i) => {
                            let st = statuses@[i];
                            &&& final(self).statuses_view() == old(self).statuses_view().insert(id, st)
                            &&& if st.action_status != ActionDecision::Accepted {
                                r is Ok && final(self).state_view()@ == forfeited(old(self).state_view()@, c)
                            } else {
                                match st.action {
                                    None => r matches Err(e) && e@ == "accepted action is missing payload"@
                                        && final(self).state_view() == old(self).state_view(),
                                    Some(a) => r is Ok && final(self).state_view()@ == match spec_apply(old(self).state_view()@, a) {
                                        Ok(t) => t,
                                        Err(_) => forfeited(old(self).state_view()@, c),
                                    },
                                }
                            }
                        },
                    },
                },
            },
    {
        proof {
            use_type_invariant(&*self);
        }
        let current = match self.state.current_player {
            Some(c) => c,
            None => {
                return Err(string_from("match is already completed"));
            },
        };
        let current_player_id = match self.player_id_for_color(current) {
            Some(id) => id,
            None => {
                return Err(string_from("missing player for current color"));
            },
        };
        let k = match first_status_index(statuses, &current_player_id) {
            Some(k) => k,
            None => {
                let mut m = string_from("missing action status for ");
                push_str(&mut m, current_player_id.as_str());
                return Err(m);
            },
        };
        let status = copy_status(&statuses[k]);
        let stored = copy_status(&statuses[k]);
        assert(stored == statuses@[k as int]);
        let mut spare = self.seat_statuses();
        std::mem::swap(&mut spare, &mut self.last_action_statuses);
        spare.insert(current_player_id, stored);
        self.last_action_statuses = spare;
        if status.action_status != ActionDecision::Accepted {
            let mut st = self.state;
            st.forfeit(current);
            self.state = st;
            return Ok(());
        }
        let action = match status.action {
            Some(a) => a,
            None => {
                return Err(string_from("accepted action is missing payload"));
            },
        };
        let mut st = self.state;
        if st.apply_valid_action(&action).is_err() {
            st.forfeit(current);
        }
        self.state = st;
        Ok(())
    }

    /// The internal snapshot: match id and game metadata, turn, status, the
    /// whole match state, and for each player what it sees, its last answer
    /// status and its stderr byte count.
    pub fn current_snapshot(&self) -> (r: ReversiSnapshot)
        ensures
            r.match_id@ == self.match_id_view(),
            r.game_id matches Some(g) && g@ == GAME_ID@,
            r.game_version matches Some(g) && g@ == GAME_VERSION@,
            r.ruleset_version matches Some(g) && g@ == RULESET_VERSION@,
            r.turn == self.state_view().turn,
            r.status == spec_status(self.state_view()),
            r.game_state == Some(snapshot_of(self.state_view())),
            r.per_player@.dom() == self.colors_view().dom(),
            forall|k: Seq<char>|
                #[trigger] r.per_player@.contains_key(k) ==> {
                    let ps = r.per_player@[k];
                    &&& ps.visible_state matches Some(v) && is_visible_state(
                        v,
                        self.state_view(),
                        self.colors_view()[k],
                    )
                    &&& same_status(ps.last_action_status, self.statuses_view()[k])
                    &&& ps.stderr_bytes == if self.stderr_view().contains_key(k) {
                        self.stderr_view()[k]
                    } else {
                        0
                    }
                },
    {
        proof {
            use_type_invariant(self);
        }
        let mut per_player: PlayerMap<PlayerSnapshot<VisibleState, Action>> = PlayerMap::new();
        let mut i: usize = 0;
        while i < 2
            invariant
                0 <= i <= 2,
                self.players@.len() == 2,
                self.player_colors@ == seat_colors(self.players@),
                forall|k: Seq<char>|
                    #[trigger] self.player_colors@.contains_key(k)
                        ==> self.last_action_statuses@.contains_key(k),
                forall|k: Seq<char>|
                    #[trigger] per_player@.contains_key(k) <==> exists|j: int|
                        0 <= j < i && self.players@[j].player_id@ == k,
                forall|k: Seq<char>|
                    #[trigger] per_player@.contains_key(k) ==> {
                        let ps = per_player@[k];
                        &&& ps.visible_state matches Some(v) && is_visible_state(
                            v,
                            self.state,
                            self.player_colors@[k],
                        )
                        &&& same_status(ps.last_action_status, self.last_action_statuses@[k])
                        &&& ps.stderr_bytes == if self.stderr_bytes@.contains_key(k) {
                            self.stderr_bytes@[k]
                        } else {
                            0
                        }
                    },
            decreases 2 - i,
        {
            let id = &self.players[i].player_id;
            proof {
                assert(self.player_colors@.contains_key(id@));
            }
            let color = match self.player_colors.get(id) {
                Some(c) => *c,
                None => PlayerColor::Black,
            };
            let last = match self.last_action_statuses.get(id) {
                Some(s) => copy_status(s),
                None => no_action_status(id.clone()),
            };
            let stderr = match self.stderr_bytes.get(id) {
                Some(n) => *n,
                None => 0,
            };
            per_player.insert(
                id.clone(),
                PlayerSnapshot {
                    visible_state: Some(self.state.visible_state_for(color)),
                    last_action_status: last,
                    stderr_bytes: stderr,
                },
            );
            i = i + 1;
        }
        proof {
            assert(per_player@.dom() =~= self.player_colors@.dom());
        }
        Snapshot {
            match_id: self.match_id.clone(),
            game_id: Some(string_from(GAME_ID)),
            game_version: Some(string_from(GAME_VERSION)),
            ruleset_version: Some(string_from(RULESET_VERSION)),
            turn: self.state.turn,
            status: self.status(),
            game_state: Some(SnapshotState::from(&self.state)),
            per_player,
        }
    }

    /// The replay-safe snapshot: match id and game metadata, turn, status,
    /// the public state, and each seat's last answer status in seat order.
    pub fn current_exported_snapshot(&self) -> (r: ReversiExportedSnapshot)
        ensures
            r.match_id@ == self.match_id_view(),
            r.game_id matches Some(g) && g@ == GAME_ID@,
            r.game_version matches Some(g) && g@ == GAME_VERSION@,
            r.ruleset_version matches Some(g) && g@ == RULESET_VERSION@,
            r.turn == self.state_view().turn,
            r.status == spec_status(self.state_view()),
            r.public_state matches Some(p) && is_public_state(p, self.state_view()),
            r.players@.len() == 2,
            forall|j: int|
                0 <= j < 2 ==> {
                    let id = self.players_view()[j].player_id@;
                    &&& (#[trigger] r.players@[j]).player_id@ == id
                    &&& same_status(r.players@[j].last_action_status, self.statuses_view()[id])
                },
    {
        proof {
            use_type_invariant(self);
        }
        let mut players: Vec<ExportedPlayerSnapshot<Action>> = Vec::new();
        let mut i: usize = 0;
        while i < 2
            invariant
                0 <= i <= 2,
                self.players@.len() == 2,
                self.player_colors@ == seat_colors(self.players@),
                forall|k: Seq<char>|
                    #[trigger] self.player_colors@.contains_key(k)
                        ==> self.last_action_statuses@.contains_key(k),
                players@.len() == i,
                forall|j: int|
                    0 <= j < i ==> {
                        let id = self.players@[j].player_id@;
                        &&& (#[trigger] players@[j]).player_id@ == id
                        &&& same_status(players@[j].last_action_status, self.last_action_statuses@[id])
                    },
            decreases 2 - i,
        {
            let id = &self.players[i].player_id;
            proof {
                assert(self.player_colors@.contains_key(id@));
            }
            let last = match self.last_action_statuses.get(id) {
                Some(s) => copy_status(s),
                None => no_action_status(id.clone()),
            };
            players.push(ExportedPlayerSnapshot { player_id: id.clone(), last_action_status: last });
            i = i + 1;
        }
        ExportedSnapshot {
            match_id: self.match_id.clone(),
            game_id: Some(string_from(GAME_ID)),
            game_version: Some(string_from(GAME_VERSION)),
            ruleset_version: Some(string_from(RULESET_VERSION)),
            turn: self.state.turn,
            status: self.status(),
            public_state: Some(self.state.public_state()),
            players,
        }
    }

    /// The final places: both seats first on a shared win, otherwise first
    /// for the winning colour and second for the other.
    pub fn current_result(&self) -> (r: MatchResult)
        ensures
            r.placements@.len() == 2,
            forall|j: int|
                0 <= j < 2 ==> {
                    let id = self.players_view()[j].player_id@;
                    &&& (#[trigger] r.placements@[j]).player_id@ == id
                    &&& r.placements@[j].place == spec_place(self.colors_view(), self.state_view()@, id)
                },
    {
        proof {
            use_type_invariant(self);
        }
        let summary = self.state.summary();
        let mut placements: Vec<Placement> = Vec::new();
        if summary.winners.len() == 2 {
            placements.push(Placement { player_id: self.players[0].player_id.clone(), place: 1 });
            placements.push(Placement { player_id: self.players[1].player_id.clone(), place: 1 });
        } else {
            let winner = summary.winners[0];
            let mut i: usize = 0;
            while i < 2
                invariant
                    0 <= i <= 2,
                    self.players@.len() == 2,
                    self.player_colors@ == seat_colors(self.players@),
                    summary.winners@ == spec_winners(self.state@),
                    summary.winners@.len() != 2,
                    winner == summary.winners@[0],
                    placements@.len() == i,
                    forall|j: int|
                        0 <= j < i ==> {
                            let id = self.players@[j].player_id@;
                            &&& (#[trigger] placements@[j]).player_id@ == id
                            &&& placements@[j].place == spec_place(self.player_colors@, self.state@, id)
                        },
                decreases 2 - i,
            {
                let id = &self.players[i].player_id;
                proof {
                    assert(self.player_colors@.contains_key(id@));
                }
                let color = match self.player_colors.get(id) {
                    Some(c) => *c,
                    None => PlayerColor::Black,
                };
                let place: i32 = if color == winner {
                    1
                } else {
                    2
                };
                placements.push(Placement { player_id: id.clone(), place });
                i = i + 1;
            }
        }
        MatchResult { placements }
    }
}

} // verus!
