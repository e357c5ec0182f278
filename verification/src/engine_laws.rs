use vstd::prelude::*;

use crate::engine::{
    dir_dc, dir_dr, flips_upto, is_placement, line_flips, ray, board_full, board_shape, count_board, count_discs, count_row, flips, finish_turn, lemma_contains_push,
    lemma_flips, lemma_legal_actions, legal_actions, on_board, place, pos, spec_apply,
    spec_is_legal_action, GameModel,
};
use crate::types::{spec_disc, spec_opponent, Action, ActionKind, Disc, PlayerColor, Position};

verus! {

/// The side to move is missing exactly when the match is over.
pub open spec fn turn_consistent(m: GameModel) -> bool {
    m.completed <==> m.current_player is None
}

/// For the side to move, an action is legal exactly when the engine accepts it.
pub proof fn law_legal_iff_accepted(m: GameModel, color: PlayerColor, a: Action)
    requires
        m.current_player == Some(color),
    ensures
        spec_is_legal_action(m, color, a) <==> spec_apply(m, a) is Ok,
{
    lemma_legal_actions(m, color);
    if let Some(p) = a.position {
        if a.kind == ActionKind::Place && legal_actions(m, color).len() > 0 {
            lemma_flips(m.board, color, p);
        }
    }
}

/// An accepted action advances the turn counter by one and hands the move to
/// the other side, unless it ends the match.
pub proof fn law_accepted_action_advances_turn(m: GameModel, a: Action)
    requires
        spec_apply(m, a) is Ok,
    ensures
        ({
            let t = spec_apply(m, a).unwrap();
            let color = m.current_player.unwrap();
            &&& t.turn == m.turn + 1
            &&& (t.completed && t.current_player is None) || t.current_player == Some(
                spec_opponent(color),
            )
        }),
{
}

/// Playing keeps "no side to move" and "match completed" in step.
pub proof fn law_apply_keeps_turn_consistency(m: GameModel, a: Action)
    requires
        turn_consistent(m),
        spec_apply(m, a) is Ok,
    ensures
        turn_consistent(spec_apply(m, a).unwrap()),
{
}

/// For the side to move, a pass is accepted exactly when it has no legal
/// placement: the legal placements alone decide when a pass is allowed.
pub proof fn law_pass_only_without_placements(m: GameModel, color: PlayerColor)
    requires
        m.current_player == Some(color),
    ensures
        spec_apply(m, Action { kind: ActionKind::Pass, position: None }) is Ok <==> legal_actions(
            m,
            color,
        ).len() == 0,
{
}

/// An accepted action that leaves the board full ends the match: no side is
/// to move any more.
pub proof fn law_full_board_ends_match(m: GameModel, a: Action)
    requires
        spec_apply(m, a) is Ok,
        board_full(spec_apply(m, a).unwrap().board),
    ensures
        spec_apply(m, a).unwrap().completed,
        spec_apply(m, a).unwrap().current_player is None,
{
}

/// A forced pass right after the other side's forced pass ends the match.
pub proof fn law_second_pass_ends_match(m: GameModel, a: Action)
    requires
        m.consecutive_passes == 1,
        a.kind == ActionKind::Pass,
        spec_apply(m, a) is Ok,
    ensures
        spec_apply(m, a).unwrap().completed,
        spec_apply(m, a).unwrap().current_player is None,
{
}

/// A placement puts the mover's disc on the chosen square, turns exactly the
/// squares `flips` names to the mover's colour, and leaves every other square
/// as it was.
pub proof fn law_placement_effect(m: GameModel, p: Position, r: int, c: int)
    requires
        board_shape(m.board),
        m.current_player is Some,
        spec_apply(m, Action { kind: ActionKind::Place, position: Some(p) }) is Ok,
        on_board(r, c),
    ensures
        ({
            let color = m.current_player.unwrap();
            let t = spec_apply(m, Action { kind: ActionKind::Place, position: Some(p) }).unwrap();
            let f = flips(m.board, color, p);
            &&& m.board[p.row as int][p.col as int] == Disc::Empty
            &&& t.board[p.row as int][p.col as int] == spec_disc(color)
            &&& f.contains(pos(r, c)) ==> m.board[r][c] == spec_disc(spec_opponent(color))
                && t.board[r][c] == spec_disc(color)
            &&& !f.contains(pos(r, c)) && !(r == p.row && c == p.col) ==> t.board[r][c]
                == m.board[r][c]
        }),
{
    let color = m.current_player.unwrap();
    let f = flips(m.board, color, p);
    lemma_flips(m.board, color, p);
    lemma_contains_push(f, p, pos(r, c));
    lemma_contains_push(f, p, pos(p.row as int, p.col as int));
    assert(pos(p.row as int, p.col as int) == p);
    if f.contains(pos(r, c)) {
        let k = choose|k: int| 0 <= k < f.len() && f[k] == pos(r, c);
        assert(f[k] == pos(r, c));
    }
}

/// Two boards that agree on every square except one square that was empty
/// and is now taken: the later board has one empty square fewer, on the first
/// `n` squares of that row.
proof fn lemma_count_row_one_taken(a: Seq<Disc>, b: Seq<Disc>, c0: int, n: nat)
    requires
        a.len() == 8,
        b.len() == 8,
        n <= 8,
        0 <= c0 < 8,
        a[c0] == Disc::Empty,
        b[c0] != Disc::Empty,
        forall|c: int| 0 <= c < 8 && c != c0 ==> (#[trigger] a[c] == Disc::Empty) == (b[c]
            == Disc::Empty),
    ensures
        count_row(b, Disc::Empty, n) == count_row(a, Disc::Empty, n) - (if c0 < n {
            1int
        } else {
            0int
        }),
    decreases n,
{
    if n > 0 {
        lemma_count_row_one_taken(a, b, c0, (n - 1) as nat);
        if n - 1 != c0 {
            assert((a[n - 1] == Disc::Empty) == (b[n - 1] == Disc::Empty));
        }
    }
}

proof fn lemma_count_row_same_empties(a: Seq<Disc>, b: Seq<Disc>, n: nat)
    requires
        a.len() == 8,
        b.len() == 8,
        n <= 8,
        forall|c: int| 0 <= c < 8 ==> (#[trigger] a[c] == Disc::Empty) == (b[c] == Disc::Empty),
    ensures
        count_row(b, Disc::Empty, n) == count_row(a, Disc::Empty, n),
    decreases n,
{
    if n > 0 {
        lemma_count_row_same_empties(a, b, (n - 1) as nat);
        assert((a[n - 1] == Disc::Empty) == (b[n - 1] == Disc::Empty));
    }
}

proof fn lemma_count_board_one_taken(a: Seq<Seq<Disc>>, b: Seq<Seq<Disc>>, r0: int, c0: int, n: nat)
    requires
        board_shape(a),
        board_shape(b),
        n <= 8,
        on_board(r0, c0),
        a[r0][c0] == Disc::Empty,
        b[r0][c0] != Disc::Empty,
        forall|r: int, c: int|
            on_board(r, c) && !(r == r0 && c == c0) ==> (#[trigger] a[r][c] == Disc::Empty) == (
            b[r][c] == Disc::Empty),
    ensures
        count_board(b, Disc::Empty, n) == count_board(a, Disc::Empty, n) - (if r0 < n {
            1int
        } else {
            0int
        }),
    decreases n,
{
    if n > 0 {
        lemma_count_board_one_taken(a, b, r0, c0, (n - 1) as nat);
        let r = n - 1;
        assert(a[r].len() == 8 && b[r].len() == 8);
        if r == r0 {
            assert forall|c: int| 0 <= c < 8 && c != c0 implies (#[trigger] a[r][c] == Disc::Empty)
                == (b[r][c] == Disc::Empty) by {
                assert(on_board(r, c));
            }
            lemma_count_row_one_taken(a[r], b[r], c0, 8);
        } else {
            assert forall|c: int| 0 <= c < 8 implies (#[trigger] a[r][c] == Disc::Empty) == (
            b[r][c] == Disc::Empty) by {
                assert(on_board(r, c));
            }
            lemma_count_row_same_empties(a[r], b[r], 8);
        }
    }
}

/// A placement fills exactly one empty square: the board has one empty
/// square fewer afterwards, and no disc ever leaves the board.
pub proof fn law_placement_fills_one_square(m: GameModel, p: Position)
    requires
        board_shape(m.board),
        m.current_player is Some,
        spec_apply(m, Action { kind: ActionKind::Place, position: Some(p) }) is Ok,
    ensures
        ({
            let t = spec_apply(m, Action { kind: ActionKind::Place, position: Some(p) }).unwrap();
            &&& count_discs(t.board, Disc::Empty) == count_discs(m.board, Disc::Empty) - 1
            &&& forall|r: int, c: int|
                on_board(r, c) && m.board[r][c] != Disc::Empty ==> #[trigger] t.board[r][c]
                    != Disc::Empty
        }),
{
    let color = m.current_player.unwrap();
    let t = spec_apply(m, Action { kind: ActionKind::Place, position: Some(p) }).unwrap();
    lemma_flips(m.board, color, p);
    assert forall|r: int, c: int| on_board(r, c) implies (#[trigger] m.board[r][c] == Disc::Empty) == (
    t.board[r][c] == Disc::Empty) || (r == p.row && c == p.col) by {
        law_placement_effect(m, p, r, c);
    }
    assert forall|r: int, c: int|
        on_board(r, c) && m.board[r][c] != Disc::Empty implies #[trigger] t.board[r][c]
            != Disc::Empty by {
        law_placement_effect(m, p, r, c);
    }
    law_placement_effect(m, p, p.row as int, p.col as int);
    assert(board_shape(t.board));
    lemma_count_board_one_taken(m.board, t.board, p.row as int, p.col as int, 8);
}


/// Whether a step from `p` in direction `(dr, dc)` meets a non-empty run of
/// the opponent's discs closed by a disc of `color`.
pub open spec fn captures(b: Seq<Seq<Disc>>, color: PlayerColor, p: Position, dr: int, dc: int) -> bool {
    match ray(b, color, p.row + dr, p.col + dc, dr, dc, 8) {
        Some(s) => s.len() > 0,
        None => false,
    }
}

/// Whether `(dr, dc)` is a step to one of the eight neighbouring squares.
pub open spec fn is_compass(dr: int, dc: int) -> bool {
    -1 <= dr <= 1 && -1 <= dc <= 1 && !(dr == 0 && dc == 0)
}

/// The engine scans each of the eight neighbouring directions exactly once.
pub proof fn law_scan_directions_are_the_eight_neighbours()
    ensures
        forall|i: int| 0 <= i < 8 ==> is_compass(#[trigger] dir_dr(i), dir_dc(i)),
        forall|i: int, j: int|
            0 <= i < j < 8 ==> !(#[trigger] dir_dr(i) == #[trigger] dir_dr(j) && dir_dc(i) == dir_dc(j)),
        forall|dr: int, dc: int|
            #[trigger] is_compass(dr, dc) ==> exists|i: int|
                0 <= i < 8 && #[trigger] dir_dr(i) == dr && dir_dc(i) == dc,
{
    assert forall|dr: int, dc: int| #[trigger] is_compass(dr, dc) implies exists|i: int|
        0 <= i < 8 && #[trigger] dir_dr(i) == dr && dir_dc(i) == dc by {
        let i: int = if dr == -1 {
            if dc == -1 { 0 } else if dc == 0 { 1 } else { 2 }
        } else if dr == 0 {
            if dc == -1 { 3 } else { 4 }
        } else {
            if dc == -1 { 5 } else if dc == 0 { 6 } else { 7 }
        };
        assert(dir_dr(i) == dr && dir_dc(i) == dc);
    }
}

proof fn lemma_flips_upto_nonempty(b: Seq<Seq<Disc>>, color: PlayerColor, p: Position, n: nat)
    ensures
        flips_upto(b, color, p, n).len() > 0 <==> exists|i: int|
            0 <= i < n && (#[trigger] line_flips(b, color, p, i)).len() > 0,
    decreases n,
{
    if n > 0 {
        lemma_flips_upto_nonempty(b, color, p, (n - 1) as nat);
        if line_flips(b, color, p, n - 1).len() > 0 {
            assert(0 <= n - 1 < n);
        }
    }
}

/// A square that is empty is a placement for `color` exactly when, in some
/// one of the eight neighbouring directions, a non-empty run of opponent
/// discs is closed by a disc of `color`.
pub proof fn law_placement_iff_some_direction_captures(
    b: Seq<Seq<Disc>>,
    color: PlayerColor,
    p: Position,
)
    requires
        on_board(p.row as int, p.col as int),
        b[p.row as int][p.col as int] == Disc::Empty,
    ensures
        is_placement(b, color, p) <==> exists|dr: int, dc: int|
            #[trigger] is_compass(dr, dc) && #[trigger] captures(b, color, p, dr, dc),
{
    law_scan_directions_are_the_eight_neighbours();
    lemma_flips_upto_nonempty(b, color, p, 8);
    if is_placement(b, color, p) {
        let i = choose|i: int| 0 <= i < 8 && (#[trigger] line_flips(b, color, p, i)).len() > 0;
        assert(is_compass(dir_dr(i), dir_dc(i)));
        assert(captures(b, color, p, dir_dr(i), dir_dc(i)));
    }
    if exists|dr: int, dc: int| #[trigger] is_compass(dr, dc) && #[trigger] captures(b, color, p, dr, dc) {
        let (dr, dc) = choose|dr: int, dc: int|
            #[trigger] is_compass(dr, dc) && #[trigger] captures(b, color, p, dr, dc);
        let i = choose|i: int| 0 <= i < 8 && #[trigger] dir_dr(i) == dr && dir_dc(i) == dc;
        assert(line_flips(b, color, p, i).len() > 0);
    }
}

} // verus!
