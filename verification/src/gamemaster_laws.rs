use vstd::prelude::*;

use crate::engine::{count_discs, forfeited, spec_is_legal_action, spec_winners, GameModel, MatchState};
use crate::gamemaster::{
    lemma_seat_of, normalized, seat_colors, seat_of, snapshot_of, spec_place, state_of, TurnPayload,
};
use crate::gm_protocol::{ActionDecision, ActionStatus, FailureReason, Player};
use crate::types::{spec_opponent, Action, Disc, PlayerColor};

verus! {

/// A player to move whose accepted answer is not a legal action for its
/// colour gets no action with the illegal-action reason; once that status
/// is applied the match is over, the other colour wins by forfeit, and the
/// failing player takes second place while the other takes first.
pub proof fn law_illegal_answer_loses(
    players: Seq<Player>,
    state: MatchState,
    status: ActionStatus<TurnPayload>,
    action: Action,
    color: PlayerColor,
    id: Seq<char>,
    other: Seq<char>,
)
    requires
        players.len() == 2,
        state.current_player == Some(color),
        seat_of(players, color) == Some(id),
        seat_of(players, spec_opponent(color)) == Some(other),
        status.action_status == ActionDecision::Accepted,
        status.action == Some(TurnPayload::Decoded(action)),
        !spec_is_legal_action(state@, color, action),
    ensures
        normalized(seat_colors(players), state, id, status) == (
            ActionDecision::NoAction,
            Some(FailureReason::InvalidIllegalAction),
            None::<Action>,
        ),
        forfeited(state@, color).completed,
        forfeited(state@, color).current_player is None,
        spec_winners(forfeited(state@, color)) == seq![spec_opponent(color)],
        spec_place(seat_colors(players), forfeited(state@, color), id) == 2,
        spec_place(seat_colors(players), forfeited(state@, color), other) == 1,
{
    lemma_seat_of(players, color);
    lemma_seat_of(players, spec_opponent(color));
}

/// A snapshot keeps everything needed to resume: the match state read back
/// from the snapshot of a state is that state.
pub proof fn law_snapshot_resumes_match(state: MatchState)
    ensures
        state_of(snapshot_of(state)) == state,
        snapshot_of(state_of(snapshot_of(state))) == snapshot_of(state),
{
}

/// A match that ends without a forfeit on equal disc counts gives both
/// players first place.
pub proof fn law_equal_counts_share_first_place(
    players: Seq<Player>,
    state: GameModel,
    id: Seq<char>,
)
    requires
        players.len() == 2,
        state.winner_by_forfeit is None,
        count_discs(state.board, Disc::Black) == count_discs(state.board, Disc::White),
    ensures
        spec_place(seat_colors(players), state, id) == 1,
{
}

/// Without a forfeit, the colour with more discs takes first place and the
/// other colour second.
pub proof fn law_more_discs_wins(players: Seq<Player>, state: GameModel, color: PlayerColor)
    requires
        players.len() == 2,
        players[0].player_id@ != players[1].player_id@,
        state.winner_by_forfeit is None,
        count_discs(state.board, crate::types::spec_disc(color)) > count_discs(
            state.board,
            crate::types::spec_disc(spec_opponent(color)),
        ),
    ensures
        spec_place(seat_colors(players), state, seat_of(players, color).unwrap()) == 1,
        spec_place(seat_colors(players), state, seat_of(players, spec_opponent(color)).unwrap())
            == 2,
{
    lemma_seat_of(players, color);
    lemma_seat_of(players, spec_opponent(color));
}

} // verus!
