use vstd::prelude::*;

use crate::engine::{
    board_shape, count_discs, count_row, lemma_count_board, lemma_legal_actions, legal_actions,
    legal_rows, on_board, pos_before, spec_apply, BOARD_SIZE, GameModel, MatchState,
};
use crate::player_protocol::{Runtime, SidecarManifest, SidecarProtocol};
use crate::protocol::Transport;
use crate::text::string_from;
use crate::types::{
    GAME_ID, GAME_VERSION, RULESET_VERSION,
    spec_disc, spec_opponent, Action, ActionKind, Disc, LegalActionHint, PlayerColor, Position,
    VisibleState,
};

verus! {

broadcast use vstd::array::group_array_axioms;

/// The state after `a`, or the same state when the engine refuses `a`.
pub open spec fn spec_step(m: GameModel, a: Action) -> GameModel {
    match spec_apply(m, a) {
        Ok(t) => t,
        Err(_) => m,
    }
}

/// A placement on `p`.
pub open spec fn place_action(p: Position) -> Action {
    Action { kind: ActionKind::Place, position: Some(p) }
}

/// A pass.
pub open spec fn pass_action() -> Action {
    Action { kind: ActionKind::Pass, position: None }
}

/// 1 when `b` holds `d` at `(r, c)`, else 0.
pub open spec fn holds(b: Seq<Seq<Disc>>, r: int, c: int, d: Disc) -> int {
    if b[r][c] == d {
        1
    } else {
        0
    }
}

/// Corners holding `d`.
pub open spec fn corners(b: Seq<Seq<Disc>>, d: Disc) -> int {
    holds(b, 0, 0, d) + holds(b, 0, 7, d) + holds(b, 7, 0, d) + holds(b, 7, 7, d)
}

/// Non-corner edge squares with index below `n` that hold `d`, over all four edges.
pub open spec fn edges_upto(b: Seq<Seq<Disc>>, d: Disc, n: int) -> int
    decreases n,
{
    if n <= 1 {
        0
    } else {
        edges_upto(b, d, n - 1) + holds(b, 0, n - 1, d) + holds(b, 7, n - 1, d) + holds(
            b,
            n - 1,
            0,
            d,
        ) + holds(b, n - 1, 7, d)
    }
}

/// Non-corner edge squares holding `d`.
pub open spec fn edges(b: Seq<Seq<Disc>>, d: Disc) -> int {
    edges_upto(b, d, 7)
}

/// Squares next to one corner that hold `d`, counted only while the corner is empty.
pub open spec fn corner_risk_at(
    b: Seq<Seq<Disc>>,
    d: Disc,
    cr: int,
    cc: int,
    r1: int,
    c1: int,
    r2: int,
    c2: int,
    r3: int,
    c3: int,
) -> int {
    if b[cr][cc] != Disc::Empty {
        0
    } else {
        holds(b, r1, c1, d) + holds(b, r2, c2, d) + holds(b, r3, c3, d)
    }
}

/// Discs `d` next to empty corners.
pub open spec fn corner_risk(b: Seq<Seq<Disc>>, d: Disc) -> int {
    corner_risk_at(b, d, 0, 0, 0, 1, 1, 0, 1, 1) + corner_risk_at(b, d, 0, 7, 0, 6, 1, 7, 1, 6)
        + corner_risk_at(b, d, 7, 0, 6, 0, 7, 1, 6, 1) + corner_risk_at(
        b,
        d,
        7,
        7,
        6,
        7,
        7,
        6,
        6,
        6,
    )
}

/// The heuristic value of `m` for `root`: corners, mobility, edges, discs
/// (weighted up near the end), the risk next to empty corners, and parity.
pub open spec fn spec_evaluate(m: GameModel, root: PlayerColor) -> int {
    let own = spec_disc(root);
    let opp = spec_disc(spec_opponent(root));
    let empties = count_discs(m.board, Disc::Empty);
    let parity = if empties % 2 == 0 {
        -1int
    } else {
        1int
    };
    let weight = if empties <= 10 {
        3int
    } else {
        1int
    };
    (corners(m.board, own) - corners(m.board, opp)) * 100 + (legal_actions(m, root).len()
        - legal_actions(m, spec_opponent(root)).len()) * 15 + (edges(m.board, own) - edges(
        m.board,
        opp,
    )) * 8 + (count_discs(m.board, own) - count_discs(m.board, opp)) * weight - (corner_risk(
        m.board,
        own,
    ) - corner_risk(m.board, opp)) * 12 + parity * 4
}

/// Depth-limited minimax value of `m` for `root`: the side to move passes when
/// it must, `root` maximises and the other side minimises over the legal
/// placements in row-major order.
pub open spec fn spec_minimax(m: GameModel, depth: nat, root: PlayerColor) -> int
    decreases depth, 0nat,
{
    if depth == 0 || m.completed || m.current_player is None {
        spec_evaluate(m, root)
    } else {
        let cp = m.current_player.unwrap();
        let legal = legal_actions(m, cp);
        if legal.len() == 0 {
            spec_minimax(spec_step(m, pass_action()), (depth - 1) as nat, root)
        } else {
            best_of(m, legal, (depth - 1) as nat, root, cp == root)
        }
    }
}

/// The best minimax value over the placements `moves` from `m`, starting from
/// the worst possible value: the maximum when `maximize`, else the minimum.
pub open spec fn best_of(
    m: GameModel,
    moves: Seq<Position>,
    child: nat,
    root: PlayerColor,
    maximize: bool,
) -> int
    decreases child, moves.len() + 1,
{
    if moves.len() == 0 {
        if maximize {
            i32::MIN as int
        } else {
            i32::MAX as int
        }
    } else {
        let prev = best_of(m, moves.drop_last(), child, root, maximize);
        let s = spec_minimax(spec_step(m, place_action(moves.last())), child, root);
        if maximize {
            if s > prev {
                s
            } else {
                prev
            }
        } else {
            if s < prev {
                s
            } else {
                prev
            }
        }
    }
}


proof fn lemma_edges_bound(b: Seq<Seq<Disc>>, d: Disc, n: int)
    requires
        n >= 1,
    ensures
        0 <= edges_upto(b, d, n) <= 4 * (n - 1),
    decreases n,
{
    if n > 1 {
        lemma_edges_bound(b, d, n - 1);
    }
}

/// The heuristic value stays well inside the range of `i32`.
#[verifier::spinoff_prover]
pub proof fn lemma_evaluate_bound(m: GameModel, root: PlayerColor)
    ensures
        -3000 <= spec_evaluate(m, root) <= 3000,
{
    let own = spec_disc(root);
    let opp = spec_disc(spec_opponent(root));
    lemma_edges_bound(m.board, own, 7);
    lemma_edges_bound(m.board, opp, 7);
    lemma_count_board(m.board, 8);
    lemma_legal_actions(m, root);
    lemma_legal_actions(m, spec_opponent(root));
    let empties = count_discs(m.board, Disc::Empty);
    let weight = if empties <= 10 {
        3int
    } else {
        1int
    };
    let dd = count_discs(m.board, own) - count_discs(m.board, opp);
    assert(-64 <= dd <= 64) by {
        assert(own == Disc::Black || own == Disc::White);
        assert(opp == Disc::Black || opp == Disc::White);
    }
    assert(-192 <= dd * weight <= 192) by (nonlinear_arith)
        requires
            -64 <= dd <= 64,
            1 <= weight <= 3,
    ;
}

fn holds_at(state: &MatchState, r: usize, c: usize, d: Disc) -> (n: i32)
    requires
        r < 8,
        c < 8,
    ensures
        n == holds(state@.board, r as int, c as int, d),
{
    let line = state.board[r];
    if line[c] == d {
        1
    } else {
        0
    }
}

fn count_corners(state: &MatchState, disc: Disc) -> (n: i32)
    ensures
        n == corners(state@.board, disc),
{
    holds_at(state, 0, 0, disc) + holds_at(state, 0, 7, disc) + holds_at(state, 7, 0, disc)
        + holds_at(state, 7, 7, disc)
}

fn count_edges(state: &MatchState, disc: Disc) -> (n: i32)
    ensures
        n == edges(state@.board, disc),
{
    let mut count: i32 = 0;
    let mut index: usize = 1;
    while index < BOARD_SIZE - 1
        invariant
            1 <= index <= 7,
            count == edges_upto(state@.board, disc, index as int),
            0 <= count <= 4 * (index - 1),
        decreases 7 - index,
    {
        proof {
            lemma_edges_bound(state@.board, disc, index as int);
        }
        count = count + holds_at(state, 0, index, disc);
        count = count + holds_at(state, BOARD_SIZE - 1, index, disc);
        count = count + holds_at(state, index, 0, disc);
        count = count + holds_at(state, index, BOARD_SIZE - 1, disc);
        index = index + 1;
    }
    count
}

fn count_on_board(state: &MatchState, disc: Disc) -> (n: i32)
    ensures
        n == count_discs(state@.board, disc),
        0 <= n <= 64,
{
    let mut count: i32 = 0;
    let mut r: usize = 0;
    while r < BOARD_SIZE
        invariant
            0 <= r <= 8,
            count == crate::engine::count_board(state@.board, disc, r as nat),
            0 <= count <= 8 * r,
        decreases 8 - r,
    {
        let line = state.board[r];
        let mut c: usize = 0;
        while c < BOARD_SIZE
            invariant
                0 <= r < 8,
                0 <= c <= 8,
                line@ == state@.board[r as int],
                count == crate::engine::count_board(state@.board, disc, r as nat) + count_row(
                    line@,
                    disc,
                    c as nat,
                ),
                0 <= count <= 8 * r + c,
            decreases 8 - c,
        {
            if line[c] == disc {
                count = count + 1;
            }
            c = c + 1;
        }
        r = r + 1;
    }
    count
}

fn corner_risk_one(
    state: &MatchState,
    disc: Disc,
    cr: usize,
    cc: usize,
    r1: usize,
    c1: usize,
    r2: usize,
    c2: usize,
    r3: usize,
    c3: usize,
) -> (n: i32)
    requires
        cr < 8 && cc < 8 && r1 < 8 && c1 < 8 && r2 < 8 && c2 < 8 && r3 < 8 && c3 < 8,
    ensures
        n == corner_risk_at(
            state@.board,
            disc,
            cr as int,
            cc as int,
            r1 as int,
            c1 as int,
            r2 as int,
            c2 as int,
            r3 as int,
            c3 as int,
        ),
        0 <= n <= 3,
{
    let corner = state.board[cr];
    if corner[cc] != Disc::Empty {
        return 0;
    }
    holds_at(state, r1, c1, disc) + holds_at(state, r2, c2, disc) + holds_at(state, r3, c3, disc)
}

fn corner_adjacent_penalty(state: &MatchState, disc: Disc) -> (n: i32)
    ensures
        n == corner_risk(state@.board, disc),
{
    let a = corner_risk_one(state, disc, 0, 0, 0, 1, 1, 0, 1, 1);
    let b = corner_risk_one(state, disc, 0, 7, 0, 6, 1, 7, 1, 6);
    let c = corner_risk_one(state, disc, 7, 0, 6, 0, 7, 1, 6, 1);
    let d = corner_risk_one(state, disc, 7, 7, 6, 7, 7, 6, 6, 6);
    a + b + c + d
}

/// The heuristic value of `state` for `root`.
fn evaluate_state(state: &MatchState, root: PlayerColor) -> (v: i32)
    ensures
        v == spec_evaluate(state@, root),
{
    proof {
        lemma_evaluate_bound(state@, root);
        lemma_legal_actions(state@, root);
        lemma_legal_actions(state@, spec_opponent(root));
        lemma_count_board(state@.board, 8);
        lemma_edges_bound(state@.board, spec_disc(root), 7);
        lemma_edges_bound(state@.board, spec_disc(spec_opponent(root)), 7);
    }
    let opponent = root.opponent();
    let own_disc = root.disc();
    let opponent_disc = opponent.disc();
    let corner_diff = count_corners(state, own_disc) - count_corners(state, opponent_disc);
    let mobility_diff = state.legal_actions_for(root).len() as i32 - state.legal_actions_for(
        opponent,
    ).len() as i32;
    let edge_diff = count_edges(state, own_disc) - count_edges(state, opponent_disc);
    let disc_diff = count_on_board(state, own_disc) - count_on_board(state, opponent_disc);
    let corner_risk_diff = corner_adjacent_penalty(state, own_disc) - corner_adjacent_penalty(
        state,
        opponent_disc,
    );
    let empties = count_on_board(state, Disc::Empty);
    let parity: i32 = if empties % 2 == 0 {
        -1
    } else {
        1
    };
    let endgame_weight: i32 = if empties <= 10 {
        3
    } else {
        1
    };
    assert(-192 <= disc_diff * endgame_weight <= 192) by (nonlinear_arith)
        requires
            -64 <= disc_diff <= 64,
            1 <= endgame_weight <= 3,
    ;
    corner_diff * 100 + mobility_diff * 15 + edge_diff * 8 + disc_diff * endgame_weight
        - corner_risk_diff * 12 + parity * 4
}


/// A copy of `state` after `action`; the copy stays as it was when the engine
/// refuses the action.
fn stepped(state: &MatchState, action: &Action) -> (next: MatchState)
    requires
        state.turn < i32::MAX,
        state.consecutive_passes < 255,
    ensures
        next@ == spec_step(state@, *action),
        next.turn <= state.turn + 1,
        next.consecutive_passes <= state.consecutive_passes + 1,
{
    let mut next = *state;
    let _ = next.apply_valid_action(action);
    next
}

/// Depth-limited minimax value of `state` for `root`.
fn minimax(state: &MatchState, depth: u8, root: PlayerColor) -> (v: i32)
    requires
        state.turn as int + depth <= i32::MAX,
        state.consecutive_passes as int + depth <= 255,
    ensures
        v == spec_minimax(state@, depth as nat, root),
    decreases depth,
{
    if depth == 0 || state.completed || state.current_player.is_none() {
        return evaluate_state(state, root);
    }
    let current_player = match state.current_player {
        Some(c) => c,
        None => {
            return evaluate_state(state, root);
        },
    };
    let legal = state.legal_actions_for(current_player);
    if legal.len() == 0 {
        let passed = stepped(state, &Action { kind: ActionKind::Pass, position: None });
        return minimax(&passed, depth - 1, root);
    }
    let maximize = current_player == root;
    let mut best: i32 = if maximize {
        i32::MIN
    } else {
        i32::MAX
    };
    let child: u8 = depth - 1;
    let mut i: usize = 0;
    assert(legal@.subrange(0, 0) =~= Seq::<Position>::empty());
    while i < legal.len()
        invariant
            0 <= i <= legal@.len(),
            depth >= 1,
            child == depth - 1,
            state.turn as int + depth <= i32::MAX,
            state.consecutive_passes as int + depth <= 255,
            legal@ == legal_actions(state@, current_player),
            best == best_of(state@, legal@.subrange(0, i as int), child as nat, root, maximize),
        decreases legal@.len() - i,
    {
        let position = legal[i];
        let next = stepped(state, &Action { kind: ActionKind::Place, position: Some(position) });
        let score = minimax(&next, child, root);
        assert(legal@.subrange(0, i + 1).drop_last() =~= legal@.subrange(0, i as int));
        assert(legal@.subrange(0, i + 1).last() == position);
        if maximize {
            if score > best {
                best = score;
            }
        } else {
            if score < best {
                best = score;
            }
        }
        i = i + 1;
    }
    assert(legal@.subrange(0, legal@.len() as int) =~= legal@);
    best
}


/// The 8x8 board a player reads from a visible state: squares beyond the
/// rows or columns the state provides count as empty.
pub open spec fn visible_board(vb: Seq<Vec<Disc>>) -> Seq<Seq<Disc>> {
    Seq::new(
        8,
        |r: int|
            Seq::new(
                8,
                |c: int|
                    if r < vb.len() && c < vb[r]@.len() {
                        vb[r]@[c]
                    } else {
                        Disc::Empty
                    },
            ),
    )
}

/// The match state a player rebuilds from what it sees.
pub open spec fn visible_model(state: VisibleState) -> GameModel {
    GameModel {
        board: visible_board(state.board@),
        current_player: state.current_player,
        turn: (state.turn as i32) as int,
        consecutive_passes: 0,
        completed: state.current_player is None,
        winner_by_forfeit: None,
    }
}

/// The rebuilt state with `color` to move and the match still running.
pub open spec fn model_for(state: VisibleState, color: PlayerColor) -> GameModel {
    GameModel {
        board: visible_board(state.board@),
        current_player: Some(color),
        turn: (state.turn as i32) as int,
        consecutive_passes: 0,
        completed: false,
        winner_by_forfeit: None,
    }
}

/// How many of the first `n` entries of `left` also occur in `right`.
pub open spec fn count_overlap(left: Seq<Position>, right: Seq<Position>, n: nat) -> nat
    decreases n,
{
    if n == 0 {
        0
    } else {
        count_overlap(left, right, (n - 1) as nat) + if right.contains(left[n - 1]) {
            1nat
        } else {
            0nat
        }
    }
}

/// How many of the first `n` entries of `right` do not occur in `left`.
pub open spec fn count_missing(left: Seq<Position>, right: Seq<Position>, n: nat) -> nat
    decreases n,
{
    if n == 0 {
        0
    } else {
        count_missing(left, right, (n - 1) as nat) + if left.contains(right[n - 1]) {
            0nat
        } else {
            1nat
        }
    }
}

/// The legal placements of `color` on the board the player sees.
pub open spec fn candidate_legal(state: VisibleState, color: PlayerColor) -> Seq<Position> {
    legal_rows(visible_board(state.board@), color, 8)
}

/// The positive part of a candidate's plausibility score: being named the
/// side to move, and agreeing with the listed and the hinted placements.
pub open spec fn candidate_base(state: VisibleState, hint: LegalActionHint, color: PlayerColor) -> int {
    let legal = candidate_legal(state, color);
    (if state.current_player == Some(color) {
        40int
    } else {
        0int
    }) + count_overlap(legal, state.legal_actions@, legal.len()) * 20 + count_overlap(
        legal,
        hint.legal_actions@,
        legal.len(),
    ) * 20
}

/// Listed placements that `color` does not have, as the 32-bit count the player computes.
pub open spec fn state_misses(state: VisibleState, color: PlayerColor) -> int {
    (count_missing(candidate_legal(state, color), state.legal_actions@, state.legal_actions@.len())
        as i32) as int
}

/// Hinted placements that `color` does not have, as the 32-bit count the player computes.
pub open spec fn hint_misses(state: VisibleState, hint: LegalActionHint, color: PlayerColor) -> int {
    (count_missing(candidate_legal(state, color), hint.legal_actions@, hint.legal_actions@.len())
        as i32) as int
}

/// Whether every step of the candidate score stays inside `i32`.
pub open spec fn candidate_fits(state: VisibleState, hint: LegalActionHint, color: PlayerColor) -> bool {
    let base = candidate_base(state, hint, color);
    let m1 = state_misses(state, color);
    let m2 = hint_misses(state, hint, color);
    &&& i32::MIN <= m1 * 5 <= i32::MAX
    &&& i32::MIN <= base - m1 * 5 <= i32::MAX
    &&& i32::MIN <= m2 * 5 <= i32::MAX
    &&& i32::MIN <= base - m1 * 5 - m2 * 5 <= i32::MAX - 3
}

/// How well "`color` is to move" explains the state and the hint.
pub open spec fn candidate_score(state: VisibleState, hint: LegalActionHint, color: PlayerColor) -> int {
    candidate_base(state, hint, color) - state_misses(state, color) * 5 - hint_misses(
        state,
        hint,
        color,
    ) * 5 + if candidate_legal(state, color).len() > 0 {
        3int
    } else {
        0int
    }
}

/// The side the player believes is to move: the better explanation, white
/// on a tie only when the state names white.
pub open spec fn believed_color(state: VisibleState, hint: LegalActionHint) -> PlayerColor {
    let black = candidate_score(state, hint, PlayerColor::Black);
    let white = candidate_score(state, hint, PlayerColor::White);
    if white > black || (white == black && state.current_player == Some(PlayerColor::White)) {
        PlayerColor::White
    } else {
        PlayerColor::Black
    }
}

/// Empty squares over the first `n` rows of a visible board, whatever their lengths.
pub open spec fn empty_cells(vb: Seq<Vec<Disc>>, n: nat) -> nat
    decreases n,
{
    if n == 0 {
        0
    } else {
        empty_cells(vb, (n - 1) as nat) + count_row(vb[n - 1]@, Disc::Empty, vb[n - 1]@.len())
    }
}

/// Search three plies deep near the end of the game, two otherwise.
pub open spec fn planned_depth(state: VisibleState) -> nat {
    if empty_cells(state.board@, state.board@.len()) <= 12 {
        3
    } else {
        2
    }
}

/// The state after `color` places on `p`, rebuilt from what the player sees.
pub open spec fn simulated(state: VisibleState, color: PlayerColor, p: Position) -> GameModel {
    spec_step(model_for(state, color), place_action(p))
}

/// The best of the first `n` candidate placements and its value: a strictly
/// better value wins, and an equal value only for an earlier square.
pub open spec fn choose_upto(
    state: VisibleState,
    color: PlayerColor,
    legal: Seq<Position>,
    child: nat,
    n: nat,
) -> (Position, int)
    decreases n,
{
    if n == 0 {
        (legal[0], i32::MIN as int)
    } else {
        let prev = choose_upto(state, color, legal, child, (n - 1) as nat);
        let p = legal[n - 1];
        let s = spec_minimax(simulated(state, color, p), child, color);
        if s > prev.1 || (s == prev.1 && crate::engine::pos_before(p, prev.0)) {
            (p, s)
        } else {
            prev
        }
    }
}

/// The reference player's move: a pass when the side it believes is to move
/// has no legal placement, otherwise the placement with the best minimax value.
pub open spec fn spec_choose_action(state: VisibleState, hint: LegalActionHint) -> Action {
    let color = believed_color(state, hint);
    let legal = candidate_legal(state, color);
    if legal.len() == 0 {
        pass_action()
    } else {
        let child = (planned_depth(state) - 1) as nat;
        place_action(choose_upto(state, color, legal, child, legal.len()).0)
    }
}

/// Whether the turn counter, read as the player's 32-bit signed turn, leaves
/// room for every move of the planned search.
pub open spec fn turn_leaves_room(state: VisibleState) -> bool {
    state.turn >= 0x8000_0000 || state.turn + planned_depth(state) <= i32::MAX
}

/// Whether the reference player can compute its move on `state` and `hint`
/// without an arithmetic overflow: the turn counter leaves room for the
/// search, and the candidate scores stay inside `i32`.
pub open spec fn choose_action_fits(state: VisibleState, hint: LegalActionHint) -> bool {
    &&& turn_leaves_room(state)
    &&& candidate_fits(state, hint, PlayerColor::Black)
    &&& candidate_fits(state, hint, PlayerColor::White)
}

fn match_state_from_visible_state(state: &VisibleState) -> (m: MatchState)
    ensures
        m@ == visible_model(*state),
        m.consecutive_passes == 0,
        m.turn == state.turn as i32,
{
    let mut board = [[Disc::Empty; 8]; 8];
    let rows = if state.board.len() < BOARD_SIZE {
        state.board.len()
    } else {
        BOARD_SIZE
    };
    let mut r: usize = 0;
    while r < rows
        invariant
            0 <= r <= rows,
            rows <= 8,
            rows <= state.board@.len(),
            forall|i: int, c: int|
                0 <= i < 8 && 0 <= c < 8 ==> #[trigger] board[i][c] == if i < r {
                    visible_board(state.board@)[i][c]
                } else {
                    Disc::Empty
                },
        decreases rows - r,
    {
        let src = &state.board[r];
        let cols = if src.len() < BOARD_SIZE {
            src.len()
        } else {
            BOARD_SIZE
        };
        let mut line = board[r];
        let mut c: usize = 0;
        while c < cols
            invariant
                0 <= c <= cols,
                cols <= 8,
                cols <= src@.len(),
                r < rows,
                rows <= 8,
                rows <= state.board@.len(),
                *src == state.board@[r as int],
                forall|j: int| 0 <= j < 8 ==> #[trigger] line[j] == if j < c {
                    src@[j]
                } else {
                    Disc::Empty
                },
            decreases cols - c,
        {
            line[c] = src[c];
            c = c + 1;
        }
        board[r] = line;
        r = r + 1;
    }
    let m = MatchState {
        board,
        current_player: state.current_player,
        turn: state.turn as i32,
        consecutive_passes: 0,
        completed: state.current_player.is_none(),
        winner_by_forfeit: None,
    };
    assert forall|i: int| 0 <= i < 8 implies #[trigger] m@.board[i] =~= visible_board(state.board@)[i] by {
        assert(m@.board[i] == board[i]@);
    }
    assert(m@.board =~= visible_board(state.board@));
    m
}


fn contains_position(v: &Vec<Position>, p: Position) -> (b: bool)
    ensures
        b == v@.contains(p),
{
    let mut i: usize = 0;
    while i < v.len()
        invariant
            0 <= i <= v@.len(),
            forall|j: int| 0 <= j < i ==> v@[j] != p,
        decreases v@.len() - i,
    {
        if v[i] == p {
            assert(v@[i as int] == p);
            return true;
        }
        i = i + 1;
    }
    false
}

proof fn lemma_count_overlap_bound(left: Seq<Position>, right: Seq<Position>, n: nat)
    ensures
        count_overlap(left, right, n) <= n,
    decreases n,
{
    if n > 0 {
        lemma_count_overlap_bound(left, right, (n - 1) as nat);
    }
}

proof fn lemma_count_missing_bound(left: Seq<Position>, right: Seq<Position>, n: nat)
    ensures
        count_missing(left, right, n) <= n,
    decreases n,
{
    if n > 0 {
        lemma_count_missing_bound(left, right, (n - 1) as nat);
    }
}

fn overlap_score(left: &Vec<Position>, right: &Vec<Position>) -> (n: i32)
    requires
        left@.len() <= 64,
    ensures
        n == count_overlap(left@, right@, left@.len()),
        0 <= n <= 64,
{
    let mut count: i32 = 0;
    let mut i: usize = 0;
    while i < left.len()
        invariant
            0 <= i <= left@.len(),
            left@.len() <= 64,
            count == count_overlap(left@, right@, i as nat),
            0 <= count <= i,
        decreases left@.len() - i,
    {
        if contains_position(right, left[i]) {
            count = count + 1;
        }
        i = i + 1;
    }
    count
}

fn mismatch_score(left: &Vec<Position>, right: &Vec<Position>) -> (n: i32)
    ensures
        n as int == (count_missing(left@, right@, right@.len()) as i32) as int,
{
    let mut count: usize = 0;
    let mut i: usize = 0;
    while i < right.len()
        invariant
            0 <= i <= right@.len(),
            count == count_missing(left@, right@, i as nat),
            count <= i,
        decreases right@.len() - i,
    {
        if !contains_position(left, right[i]) {
            count = count + 1;
        }
        i = i + 1;
    }
    count as i32
}

fn legal_actions_for_color(state: &VisibleState, current_player: PlayerColor) -> (v: Vec<Position>)
    ensures
        v@ == candidate_legal(*state, current_player),
{
    let mut match_state = match_state_from_visible_state(state);
    match_state.current_player = Some(current_player);
    match_state.completed = false;
    match_state.legal_actions_for(current_player)
}

/// One guess at the side to move, with its legal placements and how well it
/// explains what the player was told.
struct TurnCandidate {
    current_player: PlayerColor,
    legal_actions: Vec<Position>,
    score: i32,
}

fn build_turn_candidate(
    state: &VisibleState,
    hint: &LegalActionHint,
    current_player: PlayerColor,
) -> (t: TurnCandidate)
    requires
        candidate_fits(*state, *hint, current_player),
    ensures
        t.current_player == current_player,
        t.legal_actions@ == candidate_legal(*state, current_player),
        t.score == candidate_score(*state, *hint, current_player),
{
    let legal_actions = legal_actions_for_color(state, current_player);
    proof {
        crate::engine::lemma_legal_rows(visible_board(state.board@), current_player, 8);
    }
    let mut score: i32 = 0;
    let named = match state.current_player {
        Some(c) => c == current_player,
        None => false,
    };
    if named {
        score = score + 40;
    }
    score = score + overlap_score(&legal_actions, &state.legal_actions) * 20;
    score = score + overlap_score(&legal_actions, &hint.legal_actions) * 20;
    score = score - mismatch_score(&legal_actions, &state.legal_actions) * 5;
    score = score - mismatch_score(&legal_actions, &hint.legal_actions) * 5;
    if legal_actions.len() != 0 {
        score = score + 3;
    }
    TurnCandidate { current_player, legal_actions, score }
}

/// The side the player believes is to move and that side's legal placements.
fn infer_believed_turn(state: &VisibleState, hint: &LegalActionHint) -> (t: TurnCandidate)
    requires
        candidate_fits(*state, *hint, PlayerColor::Black),
        candidate_fits(*state, *hint, PlayerColor::White),
    ensures
        t.current_player == believed_color(*state, *hint),
        t.legal_actions@ == candidate_legal(*state, t.current_player),
{
    let black = build_turn_candidate(state, hint, PlayerColor::Black);
    let white = build_turn_candidate(state, hint, PlayerColor::White);
    let names_white = match state.current_player {
        Some(c) => c == PlayerColor::White,
        None => false,
    };
    if white.score > black.score || (white.score == black.score && names_white) {
        white
    } else {
        black
    }
}

/// Empty squares on a visible board, counted up to 13: the search only asks
/// whether there are at most 12.
fn count_empty_cells(board: &Vec<Vec<Disc>>) -> (n: usize)
    ensures
        n == if empty_cells(board@, board@.len()) <= 13 {
            empty_cells(board@, board@.len())
        } else {
            13
        },
{
    let mut count: usize = 0;
    let mut r: usize = 0;
    while r < board.len()
        invariant
            0 <= r <= board@.len(),
            count == if empty_cells(board@, r as nat) <= 13 {
                empty_cells(board@, r as nat)
            } else {
                13
            },
        decreases board@.len() - r,
    {
        let row = &board[r];
        let mut c: usize = 0;
        while c < row.len()
            invariant
                0 <= c <= row@.len(),
                *row == board@[r as int],
                r < board@.len(),
                count == if empty_cells(board@, r as nat) + count_row(row@, Disc::Empty, c as nat) <= 13 {
                    empty_cells(board@, r as nat) + count_row(row@, Disc::Empty, c as nat)
                } else {
                    13
                },
            decreases row@.len() - c,
        {
            if row[c] == Disc::Empty && count < 13 {
                count = count + 1;
            }
            c = c + 1;
        }
        r = r + 1;
    }
    count
}

/// How many plies the reference player searches on `state`: three with at
/// most twelve empty squares, two otherwise.
pub fn search_depth(state: &VisibleState) -> (d: u8)
    ensures
        d as nat == planned_depth(*state),
{
    if count_empty_cells(&state.board) <= 12 {
        3
    } else {
        2
    }
}

fn simulate_action(state: &VisibleState, current_player: PlayerColor, position: Position) -> (m: MatchState)
    requires
        state.turn < 0x7fff_ffff || state.turn >= 0x8000_0000,
    ensures
        m@ == simulated(*state, current_player, position),
        m.turn as int <= (state.turn as i32) as int + 1,
        m.consecutive_passes <= 1,
{
    let mut match_state = match_state_from_visible_state(state);
    proof {
        let t = state.turn;
        assert(t >= 0x8000_0000 ==> (t as i32) < 0) by (bit_vector);
        assert(t < 0x8000_0000 ==> (t as i32) == t) by (bit_vector);
    }
    match_state.current_player = Some(current_player);
    match_state.completed = false;
    let _ = match_state.apply_valid_action(&Action { kind: ActionKind::Place, position: Some(position) });
    match_state
}

/// The reference player's move: from the board it sees it works out which
/// side is to move, passes when that side has no legal placement, and
/// otherwise searches each placement with a shallow minimax and takes the
/// best one, the earliest square on equal values.
pub fn choose_action(state: &VisibleState, hint: &LegalActionHint) -> (a: Action)
    requires
        choose_action_fits(*state, *hint),
    ensures
        a == spec_choose_action(*state, *hint),
{
    let believed_turn = infer_believed_turn(state, hint);
    if believed_turn.legal_actions.len() == 0 {
        return Action { kind: ActionKind::Pass, position: None };
    }
    let search_depth = search_depth(state);
    let color = believed_turn.current_player;
    let ordered_actions = believed_turn.legal_actions;
    let ghost legal = ordered_actions@;
    let child: u8 = search_depth - 1;
    let mut best_position = ordered_actions[0];
    let mut best_score = i32::MIN;
    let mut i: usize = 0;
    while i < ordered_actions.len()
        invariant
            0 <= i <= legal.len(),
            legal.len() > 0,
            ordered_actions@ == legal,
            legal == candidate_legal(*state, color),
            child as nat == planned_depth(*state) - 1,
            1 <= child <= 2,
            turn_leaves_room(*state),
            (best_position, best_score as int) == choose_upto(*state, color, legal, child as nat, i as nat),
        decreases legal.len() - i,
    {
        let position = ordered_actions[i];
        let candidate_state = simulate_action(state, color, position);
        proof {
            let t = state.turn;
            assert(t >= 0x8000_0000 ==> (t as i32) < 0) by (bit_vector);
            assert(t < 0x8000_0000 ==> (t as i32) == t) by (bit_vector);
        }
        let score = minimax(&candidate_state, child, color);
        if score > best_score || (score == best_score && (position.row < best_position.row || (
        position.row == best_position.row && position.col < best_position.col))) {
            best_score = score;
            best_position = position;
        }
        i = i + 1;
    }
    Action { kind: ActionKind::Place, position: Some(best_position) }
}


/// The name of the reference player.
pub fn player_name() -> (n: &'static str)
    ensures
        n@ == "rust-reference"@,
{
    proof {
        reveal_strlit("rust-reference");
    }
    "rust-reference"
}

/// The module file the reference player ships as.
pub open spec fn player_module_file() -> Seq<char> {
    "./reversi-rust-reference-player.wasm"@
}

/// The runner entry of the reference player: its name, the newline-JSON-RPC
/// transport, this game's metadata, and a WASI module with 64 memory pages.
pub fn sidecar_manifest() -> (m: SidecarManifest)
    ensures
        m.ai_id matches Some(id) && id@ == "rust-reference"@,
        m.protocol.transport == Transport::StdioJsonrpcNdjson,
        m.protocol.game_id@ == GAME_ID@,
        m.protocol.game_version@ == GAME_VERSION@,
        m.protocol.ruleset_version@ == RULESET_VERSION@,
        m.runtime matches Runtime::WasmWasi { module, args, memory_limit_pages } && module@
            == player_module_file() && args@.len() == 1 && args@[0]@ == player_module_file()
            && memory_limit_pages == Some(64u32),
{
    let mut args: Vec<String> = Vec::new();
    args.push(string_from("./reversi-rust-reference-player.wasm"));
    SidecarManifest {
        ai_id: Some(string_from(player_name())),
        protocol: SidecarProtocol {
            transport: Transport::StdioJsonrpcNdjson,
            game_id: string_from(GAME_ID),
            game_version: string_from(GAME_VERSION),
            ruleset_version: string_from(RULESET_VERSION),
        },
        runtime: Runtime::WasmWasi {
            module: string_from("./reversi-rust-reference-player.wasm"),
            args,
            memory_limit_pages: Some(64),
        },
    }
}


proof fn lemma_choose_upto_in_list(
    state: VisibleState,
    color: PlayerColor,
    legal: Seq<Position>,
    child: nat,
    n: nat,
)
    requires
        legal.len() > 0,
        n <= legal.len(),
    ensures
        legal.contains(choose_upto(state, color, legal, child, n).0),
    decreases n,
{
    if n == 0 {
        assert(legal[0] == legal[0]);
    } else {
        lemma_choose_upto_in_list(state, color, legal, child, (n - 1) as nat);
        assert(legal[n - 1] == legal[n - 1]);
    }
}

/// The reference player passes exactly when the side it believes is to move
/// has no legal placement on the board it sees; otherwise it places on one
/// of that side's legal squares.
pub proof fn law_reference_player_moves_legally(state: VisibleState, hint: LegalActionHint)
    ensures
        ({
            let color = believed_color(state, hint);
            let a = spec_choose_action(state, hint);
            &&& (a.kind == ActionKind::Pass) <==> candidate_legal(state, color).len() == 0
            &&& a.kind == ActionKind::Pass ==> a.position is None
            &&& a.kind == ActionKind::Place ==> (a.position matches Some(p) && on_board(
                p.row as int,
                p.col as int,
            ) && crate::engine::is_placement(visible_board(state.board@), color, p))
        }),
{
    let color = believed_color(state, hint);
    let legal = candidate_legal(state, color);
    crate::engine::lemma_legal_rows(visible_board(state.board@), color, 8);
    if legal.len() > 0 {
        let child = (planned_depth(state) - 1) as nat;
        lemma_choose_upto_in_list(state, color, legal, child, legal.len());
        let p = choose_upto(state, color, legal, child, legal.len()).0;
        let k = choose|k: int| 0 <= k < legal.len() && legal[k] == p;
        assert(legal[k] == p);
    }
}


/// Every action the search plays is one the engine accepts: a pass when the
/// side to move has no placement, any of its legal placements otherwise.
pub proof fn law_search_moves_are_accepted(m: GameModel, p: Position)
    requires
        m.current_player is Some,
        !m.completed,
    ensures
        legal_actions(m, m.current_player.unwrap()).len() == 0 ==> spec_apply(m, pass_action()) is Ok,
        legal_actions(m, m.current_player.unwrap()).contains(p) ==> spec_apply(m, place_action(p)) is Ok,
{
    let cp = m.current_player.unwrap();
    crate::engine_laws::law_legal_iff_accepted(m, cp, pass_action());
    crate::engine_laws::law_legal_iff_accepted(m, cp, place_action(p));
}


/// Every minimax value lies within the range of the heuristic.
proof fn lemma_minimax_bound(m: GameModel, depth: nat, root: PlayerColor)
    ensures
        -3000 <= spec_minimax(m, depth, root) <= 3000,
    decreases depth, 0nat,
{
    if depth == 0 || m.completed || m.current_player is None {
        lemma_evaluate_bound(m, root);
    } else {
        let cp = m.current_player.unwrap();
        let legal = legal_actions(m, cp);
        if legal.len() == 0 {
            lemma_minimax_bound(spec_step(m, pass_action()), (depth - 1) as nat, root);
        } else {
            lemma_best_of_bound(m, legal, (depth - 1) as nat, root, cp == root);
        }
    }
}

proof fn lemma_best_of_bound(
    m: GameModel,
    moves: Seq<Position>,
    child: nat,
    root: PlayerColor,
    maximize: bool,
)
    requires
        moves.len() > 0,
    ensures
        -3000 <= best_of(m, moves, child, root, maximize) <= 3000,
    decreases child, moves.len() + 1,
{
    lemma_minimax_bound(spec_step(m, place_action(moves.last())), child, root);
    if moves.len() > 1 {
        lemma_best_of_bound(m, moves.drop_last(), child, root, maximize);
    } else {
        assert(moves.drop_last().len() == 0);
        assert(best_of(m, moves.drop_last(), child, root, maximize) == if maximize {
            i32::MIN as int
        } else {
            i32::MAX as int
        });
    }
}

/// The minimax value of placing `color` on `p`, searched `child` plies
/// deeper with `color` as the side whose value counts.
pub open spec fn mover_value(state: VisibleState, color: PlayerColor, p: Position, child: nat) -> int {
    spec_minimax(simulated(state, color, p), child, color)
}

proof fn lemma_choose_upto_best(
    state: VisibleState,
    color: PlayerColor,
    legal: Seq<Position>,
    child: nat,
    n: nat,
)
    requires
        1 <= n <= legal.len(),
    ensures
        ({
            let (p, s) = choose_upto(state, color, legal, child, n);
            &&& exists|k: int| 0 <= k < n && legal[k] == p
            &&& s == mover_value(state, color, p, child)
            &&& forall|j: int| 0 <= j < n ==> mover_value(state, color, #[trigger] legal[j], child) <= s
            &&& forall|j: int|
                0 <= j < n && pos_before(#[trigger] legal[j], p) ==> mover_value(
                    state,
                    color,
                    legal[j],
                    child,
                ) < s
        }),
    decreases n,
{
    let q = legal[n - 1];
    let sq = mover_value(state, color, q, child);
    lemma_minimax_bound(simulated(state, color, q), child, color);
    if n == 1 {
        assert(choose_upto(state, color, legal, child, 0) == (legal[0], i32::MIN as int));
        assert(legal[0] == q);
        let (p, s) = choose_upto(state, color, legal, child, 1);
        assert(p == q && s == sq);
        assert(exists|k: int| 0 <= k < 1 && legal[k] == p);
    } else {
        lemma_choose_upto_best(state, color, legal, child, (n - 1) as nat);
        let (p0, s0) = choose_upto(state, color, legal, child, (n - 1) as nat);
        let (p, s) = choose_upto(state, color, legal, child, n);
        let k0 = choose|k: int| 0 <= k < n - 1 && legal[k] == p0;
        let switched = sq > s0 || (sq == s0 && pos_before(q, p0));
        if switched {
            assert(p == q && s == sq);
            assert(legal[n - 1] == p);
            assert forall|j: int| 0 <= j < n implies mover_value(state, color, #[trigger] legal[j], child)
                <= s by {
                if j < n - 1 {
                    assert(mover_value(state, color, legal[j], child) <= s0);
                }
            }
            assert forall|j: int|
                0 <= j < n && pos_before(#[trigger] legal[j], p) implies mover_value(
                state,
                color,
                legal[j],
                child,
            ) < s by {
                if j < n - 1 {
                    assert(mover_value(state, color, legal[j], child) <= s0);
                    if sq == s0 {
                        assert(pos_before(legal[j], p0));
                    }
                }
            }
        } else {
            assert(p == p0 && s == s0);
            assert(legal[k0] == p);
            assert forall|j: int| 0 <= j < n implies mover_value(state, color, #[trigger] legal[j], child)
                <= s by {
                if j == n - 1 {
                    assert(legal[j] == q);
                }
            }
            assert forall|j: int|
                0 <= j < n && pos_before(#[trigger] legal[j], p) implies mover_value(
                state,
                color,
                legal[j],
                child,
            ) < s by {
                if j == n - 1 {
                    assert(legal[j] == q);
                }
            }
        }
    }
}

/// The reference player's placement is the best one for the side it
/// believes is to move, valued by a search in which that side's score
/// counts: no legal placement of that side is worth more to it, and no
/// earlier square is worth as much.
pub proof fn law_choice_is_best_for_the_mover(state: VisibleState, hint: LegalActionHint)
    requires
        candidate_legal(state, believed_color(state, hint)).len() > 0,
    ensures
        ({
            let color = believed_color(state, hint);
            let legal = candidate_legal(state, color);
            let child = (planned_depth(state) - 1) as nat;
            let a = spec_choose_action(state, hint);
            &&& a.kind == ActionKind::Place
            &&& a.position matches Some(p) && legal.contains(p) && (forall|q: Position|
                #[trigger] legal.contains(q) ==> mover_value(state, color, q, child)
                    <= mover_value(state, color, p, child)) && (forall|q: Position|
                #[trigger] legal.contains(q) && pos_before(q, p) ==> mover_value(
                    state,
                    color,
                    q,
                    child,
                ) < mover_value(state, color, p, child))
        }),
{
    let color = believed_color(state, hint);
    let legal = candidate_legal(state, color);
    let child = (planned_depth(state) - 1) as nat;
    lemma_choose_upto_best(state, color, legal, child, legal.len());
    let (p, s) = choose_upto(state, color, legal, child, legal.len());
    let k = choose|k: int| 0 <= k < legal.len() && legal[k] == p;
    assert(legal[k] == p);
    assert forall|q: Position| #[trigger] legal.contains(q) implies mover_value(state, color, q, child)
        <= s by {
        let j = choose|j: int| 0 <= j < legal.len() && legal[j] == q;
        assert(mover_value(state, color, legal[j], child) <= s);
    }
    assert forall|q: Position| #[trigger] legal.contains(q) && pos_before(q, p) implies mover_value(
        state,
        color,
        q,
        child,
    ) < s by {
        let j = choose|j: int| 0 <= j < legal.len() && legal[j] == q;
        assert(pos_before(legal[j], p));
    }
}

} // verus!
