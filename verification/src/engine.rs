use vstd::prelude::*;

use crate::types::{
    spec_disc, spec_opponent, Action, ActionKind, Disc, DiscPlacement, GameSummary, PlayerColor,
    Position, PublicState, ScoreSummary, VisibleState,
};

verus! {

broadcast use vstd::array::group_array_axioms;

/// Width and height of the board.
pub const BOARD_SIZE: usize = 8;

/// The state of one match: board, side to move, turn counter and outcome.
#[derive(Debug, Clone, Copy, PartialEq, Eq)]
pub struct MatchState {
    pub board: [[Disc; 8]; 8],
    pub current_player: Option<PlayerColor>,
    pub turn: i32,
    pub consecutive_passes: u8,
    pub completed: bool,
    pub winner_by_forfeit: Option<PlayerColor>,
}

/// The mathematical picture of a [`MatchState`]: the board as rows of squares.
#[verifier::ext_equal]
pub struct GameModel {
    pub board: Seq<Seq<Disc>>,
    pub current_player: Option<PlayerColor>,
    pub turn: int,
    pub consecutive_passes: int,
    pub completed: bool,
    pub winner_by_forfeit: Option<PlayerColor>,
}

/// The rows of a board array, each as a sequence of squares.
pub open spec fn board_view(b: [[Disc; 8]; 8]) -> Seq<Seq<Disc>> {
    Seq::new(8, |r: int| b[r]@)
}

impl View for MatchState {
    type V = GameModel;

    open spec fn view(&self) -> GameModel {
        GameModel {
            board: board_view(self.board),
            current_player: self.current_player,
            turn: self.turn as int,
            consecutive_passes: self.consecutive_passes as int,
            completed: self.completed,
            winner_by_forfeit: self.winner_by_forfeit,
        }
    }
}

/// A board is eight rows of eight squares.
pub open spec fn board_shape(b: Seq<Seq<Disc>>) -> bool {
    &&& b.len() == 8
    &&& forall|r: int| 0 <= r < 8 ==> (#[trigger] b[r]).len() == 8
}

/// Whether `(r, c)` lies on the board.
pub open spec fn on_board(r: int, c: int) -> bool {
    0 <= r < 8 && 0 <= c < 8
}

/// The square with the given coordinates.
pub open spec fn pos(r: int, c: int) -> Position {
    Position { row: r as u8, col: c as u8 }
}

/// Row step of the `i`-th scan direction.
pub open spec fn dir_dr(i: int) -> int {
    if i < 3 {
        -1
    } else if i < 5 {
        0
    } else {
        1
    }
}

/// Column step of the `i`-th scan direction.
pub open spec fn dir_dc(i: int) -> int {
    if i == 0 || i == 3 || i == 5 {
        -1
    } else if i == 1 || i == 6 {
        0
    } else {
        1
    }
}

/// Walking from `(r, c)` in direction `(dr, dc)`: the run of opponent discs
/// when it is closed by a disc of `color`, `None` when the walk leaves the
/// board or meets an empty square first.
pub open spec fn ray(
    b: Seq<Seq<Disc>>,
    color: PlayerColor,
    r: int,
    c: int,
    dr: int,
    dc: int,
    fuel: nat,
) -> Option<Seq<Position>>
    decreases fuel,
{
    if fuel == 0 || !on_board(r, c) {
        None
    } else if b[r][c] == spec_disc(spec_opponent(color)) {
        match ray(b, color, r + dr, c + dc, dr, dc, (fuel - 1) as nat) {
            Some(s) => Some(seq![pos(r, c)] + s),
            None => None,
        }
    } else if b[r][c] == spec_disc(color) {
        Some(Seq::empty())
    } else {
        None
    }
}

/// The discs that a placement of `color` on `p` turns along direction `i`.
pub open spec fn line_flips(b: Seq<Seq<Disc>>, color: PlayerColor, p: Position, i: int) -> Seq<
    Position,
> {
    match ray(b, color, p.row + dir_dr(i), p.col + dir_dc(i), dir_dr(i), dir_dc(i), 8) {
        Some(s) => s,
        None => Seq::empty(),
    }
}

/// The discs turned along the first `n` directions, in direction order.
pub open spec fn flips_upto(b: Seq<Seq<Disc>>, color: PlayerColor, p: Position, n: nat) -> Seq<
    Position,
>
    decreases n,
{
    if n == 0 {
        Seq::empty()
    } else {
        flips_upto(b, color, p, (n - 1) as nat) + line_flips(b, color, p, n - 1)
    }
}

/// The discs that a placement of `color` on `p` turns; empty when `p` is off
/// the board or taken.
pub open spec fn flips(b: Seq<Seq<Disc>>, color: PlayerColor, p: Position) -> Seq<Position> {
    if on_board(p.row as int, p.col as int) && b[p.row as int][p.col as int] == Disc::Empty {
        flips_upto(b, color, p, 8)
    } else {
        Seq::empty()
    }
}

/// Whether `color` may place a disc on `p`.
pub open spec fn is_placement(b: Seq<Seq<Disc>>, color: PlayerColor, p: Position) -> bool {
    flips(b, color, p).len() > 0
}

/// The placements for `color` on row `r` among its first `n` columns, left to right.
pub open spec fn legal_in_row(b: Seq<Seq<Disc>>, color: PlayerColor, r: int, n: nat) -> Seq<
    Position,
>
    decreases n,
{
    if n == 0 {
        Seq::empty()
    } else {
        let prev = legal_in_row(b, color, r, (n - 1) as nat);
        if is_placement(b, color, pos(r, n - 1)) {
            prev.push(pos(r, n - 1))
        } else {
            prev
        }
    }
}

/// The placements for `color` on the first `n` rows, in row-major order.
pub open spec fn legal_rows(b: Seq<Seq<Disc>>, color: PlayerColor, n: nat) -> Seq<Position>
    decreases n,
{
    if n == 0 {
        Seq::empty()
    } else {
        legal_rows(b, color, (n - 1) as nat) + legal_in_row(b, color, n - 1, 8)
    }
}

/// The legal placements of `color`: none once the match is completed.
pub open spec fn legal_actions(m: GameModel, color: PlayerColor) -> Seq<Position> {
    if m.completed {
        Seq::empty()
    } else {
        legal_rows(m.board, color, 8)
    }
}


/// Number of squares holding `d` among the first `n` squares of `row`.
pub open spec fn count_row(row: Seq<Disc>, d: Disc, n: nat) -> nat
    decreases n,
{
    if n == 0 {
        0
    } else {
        count_row(row, d, (n - 1) as nat) + if row[n - 1] == d {
            1nat
        } else {
            0nat
        }
    }
}

/// Number of squares holding `d` on the first `n` rows.
pub open spec fn count_board(b: Seq<Seq<Disc>>, d: Disc, n: nat) -> nat
    decreases n,
{
    if n == 0 {
        0
    } else {
        count_board(b, d, (n - 1) as nat) + count_row(b[n - 1], d, 8)
    }
}

/// Number of squares holding `d` on the whole board.
pub open spec fn count_discs(b: Seq<Seq<Disc>>, d: Disc) -> nat {
    count_board(b, d, 8)
}

/// Whether no square is empty.
pub open spec fn board_full(b: Seq<Seq<Disc>>) -> bool {
    forall|r: int, c: int| on_board(r, c) ==> #[trigger] b[r][c] != Disc::Empty
}

/// The board after every square of `cells` took disc `d`.
pub open spec fn place(b: Seq<Seq<Disc>>, cells: Seq<Position>, d: Disc) -> Seq<Seq<Disc>> {
    Seq::new(
        8,
        |r: int|
            Seq::new(
                8,
                |c: int|
                    if cells.contains(pos(r, c)) {
                        d
                    } else {
                        b[r][c]
                    },
            ),
    )
}

/// Hands the turn to the other side, and ends the match when the board is
/// full or both sides have passed in a row.
pub open spec fn finish_turn(m: GameModel, color: PlayerColor) -> GameModel {
    if board_full(m.board) || m.consecutive_passes >= 2 {
        GameModel {
            board: m.board,
            current_player: None,
            turn: m.turn + 1,
            consecutive_passes: m.consecutive_passes,
            completed: true,
            winner_by_forfeit: m.winner_by_forfeit,
        }
    } else {
        GameModel {
            board: m.board,
            current_player: Some(spec_opponent(color)),
            turn: m.turn + 1,
            consecutive_passes: m.consecutive_passes,
            completed: m.completed,
            winner_by_forfeit: m.winner_by_forfeit,
        }
    }
}

/// The outcome of playing `a` for the side to move: the next state, or the
/// reason the action is refused.
pub open spec fn spec_apply(m: GameModel, a: Action) -> Result<GameModel, &'static str> {
    match m.current_player {
        None => Err("match is completed"),
        Some(color) => {
            if legal_actions(m, color).len() == 0 {
                if a.kind != ActionKind::Pass || a.position is Some {
                    Err("forced pass turn requires pass")
                } else {
                    Ok(
                        finish_turn(
                            GameModel {
                                board: m.board,
                                current_player: m.current_player,
                                turn: m.turn,
                                consecutive_passes: m.consecutive_passes + 1,
                                completed: m.completed,
                                winner_by_forfeit: m.winner_by_forfeit,
                            },
                            color,
                        ),
                    )
                }
            } else if a.kind != ActionKind::Place {
                Err("legal move turn requires placement")
            } else {
                match a.position {
                    None => Err("placement requires position"),
                    Some(p) => {
                        let f = flips(m.board, color, p);
                        if f.len() == 0 {
                            Err("placement is not legal")
                        } else {
                            Ok(
                                finish_turn(
                                    GameModel {
                                        board: place(m.board, f.push(p), spec_disc(color)),
                                        current_player: m.current_player,
                                        turn: m.turn,
                                        consecutive_passes: 0,
                                        completed: m.completed,
                                        winner_by_forfeit: m.winner_by_forfeit,
                                    },
                                    color,
                                ),
                            )
                        }
                    },
                }
            }
        },
    }
}

/// Whether `a` is the action the rules ask of `color`: a pass exactly when
/// `color` has no legal placement, otherwise one of its legal placements.
pub open spec fn spec_is_legal_action(m: GameModel, color: PlayerColor, a: Action) -> bool {
    let legal = legal_actions(m, color);
    if legal.len() == 0 {
        a.kind == ActionKind::Pass && a.position is None
    } else {
        a.kind == ActionKind::Place && match a.position {
            Some(p) => legal.contains(p),
            None => false,
        }
    }
}

/// The side that a forfeit or the disc counts make the winner or winners.
pub open spec fn spec_winners(m: GameModel) -> Seq<PlayerColor> {
    match m.winner_by_forfeit {
        Some(w) => seq![w],
        None => {
            let black = count_discs(m.board, Disc::Black);
            let white = count_discs(m.board, Disc::White);
            if black > white {
                seq![PlayerColor::Black]
            } else if white > black {
                seq![PlayerColor::White]
            } else {
                seq![PlayerColor::Black, PlayerColor::White]
            }
        },
    }
}

/// The board of the standard opening: four discs in the centre.
pub open spec fn standard_board() -> Seq<Seq<Disc>> {
    Seq::new(
        8,
        |r: int|
            Seq::new(
                8,
                |c: int|
                    if (r == 3 && c == 3) || (r == 4 && c == 4) {
                        Disc::White
                    } else if (r == 3 && c == 4) || (r == 4 && c == 3) {
                        Disc::Black
                    } else {
                        Disc::Empty
                    },
            ),
    )
}

/// Whether `v` holds the rows of `b`, each as a vector.
pub open spec fn rows_match(v: Seq<Vec<Disc>>, b: Seq<Seq<Disc>>) -> bool {
    &&& v.len() == b.len()
    &&& forall|r: int| 0 <= r < v.len() ==> (#[trigger] v[r])@ == b[r]
}

/// The state after `loser` forfeits: the match is over and the other side wins.
pub open spec fn forfeited(m: GameModel, loser: PlayerColor) -> GameModel {
    GameModel {
        board: m.board,
        current_player: None,
        turn: m.turn,
        consecutive_passes: m.consecutive_passes,
        completed: true,
        winner_by_forfeit: Some(spec_opponent(loser)),
    }
}

/// What `color` sees of the match: its turn, board, side to move, disc
/// counts, and its legal placements when it is the one to move.
pub open spec fn is_visible_state(v: VisibleState, s: MatchState, color: PlayerColor) -> bool {
    &&& v.turn == s.turn as u32
    &&& rows_match(v.board@, s@.board)
    &&& v.current_player == s.current_player
    &&& v.legal_actions@ == if s.current_player == Some(color) && !s.completed {
        legal_actions(s@, color)
    } else {
        Seq::empty()
    }
    &&& v.scores == spec_scores(s@.board)
}

/// The replay-safe view of a match state.
pub open spec fn is_public_state(p: PublicState, s: MatchState) -> bool {
    &&& p.turn == s.turn as u32
    &&& rows_match(p.board@, s@.board)
    &&& p.current_player == s.current_player
    &&& p.scores == spec_scores(s@.board)
    &&& p.completed == s.completed
}

/// The disc counts of a board.
pub open spec fn spec_scores(b: Seq<Seq<Disc>>) -> ScoreSummary {
    ScoreSummary {
        black: count_discs(b, Disc::Black) as u8,
        white: count_discs(b, Disc::White) as u8,
    }
}

/// Scan directions in the order the engine walks them.
fn direction(i: usize) -> (d: (i8, i8))
    requires
        i < 8,
    ensures
        d.0 as int == dir_dr(i as int),
        d.1 as int == dir_dc(i as int),
{
    match i {
        0 => (-1, -1),
        1 => (-1, 0),
        2 => (-1, 1),
        3 => (0, -1),
        4 => (0, 1),
        5 => (1, -1),
        6 => (1, 0),
        _ => (1, 1),
    }
}

/// `Some(l + s)` for `Some(s)`, `None` for `None`.
pub open spec fn prefixed(l: Seq<Position>, o: Option<Seq<Position>>) -> Option<Seq<Position>> {
    match o {
        Some(s) => Some(l + s),
        None => None,
    }
}

impl MatchState {
    fn disc_at(&self, position: Position) -> (d: Disc)
        requires
            on_board(position.row as int, position.col as int),
        ensures
            d == self@.board[position.row as int][position.col as int],
    {
        let row = self.board[position.row as usize];
        row[position.col as usize]
    }

    fn in_bounds(&self, position: Position) -> (b: bool)
        ensures
            b == on_board(position.row as int, position.col as int),
    {
        (position.row as usize) < BOARD_SIZE && (position.col as usize) < BOARD_SIZE
    }

    /// The discs of the other side that a placement of `color` on `position`
    /// turns, direction by direction.
    fn flips_for(&self, color: PlayerColor, position: Position) -> (f: Vec<Position>)
        ensures
            f@ == flips(self@.board, color, position),
    {
        if !self.in_bounds(position) || self.disc_at(position) != Disc::Empty {
            return Vec::new();
        }
        let ghost b = self@.board;
        let own = color.disc();
        let other = color.opponent().disc();
        let mut flips: Vec<Position> = Vec::new();
        let mut d: usize = 0;
        while d < 8
            invariant
                0 <= d <= 8,
                b == self@.board,
                own == spec_disc(color),
                other == spec_disc(spec_opponent(color)),
                on_board(position.row as int, position.col as int),
                flips@ == flips_upto(b, color, position, d as nat),
            decreases 8 - d,
        {
            let (dr, dc) = direction(d);
            let ghost pr = position.row as int;
            let ghost pc = position.col as int;
            let ghost total = ray(b, color, pr + dr, pc + dc, dr as int, dc as int, 8);
            let mut line: Vec<Position> = Vec::new();
            let mut row: i8 = position.row as i8 + dr;
            let mut col: i8 = position.col as i8 + dc;
            let mut closed = false;
            let mut done = false;
            while !done
                invariant
                    b == self@.board,
                    own == spec_disc(color),
                    other == spec_disc(spec_opponent(color)),
                    0 <= pr < 8,
                    0 <= pc < 8,
                    dr as int == dir_dr(d as int),
                    dc as int == dir_dc(d as int),
                    d < 8,
                    dr == 1 ==> row as int == pr + line@.len() + 1,
                    dr == 0 ==> row as int == pr,
                    dr == -1 ==> row as int == pr - line@.len() - 1,
                    dc == 1 ==> col as int == pc + line@.len() + 1,
                    dc == 0 ==> col as int == pc,
                    dc == -1 ==> col as int == pc - line@.len() - 1,
                    line@.len() <= 7,
                    !done ==> !closed,
                    !done ==> total == prefixed(
                        line@,
                        ray(b, color, row as int, col as int, dr as int, dc as int, (8 - line@.len()) as nat),
                    ),
                    done ==> (closed ==> total == Some(line@)) && (!closed ==> total is None),
                decreases 8 - line@.len() + (if done { 0int } else { 1int }),
            {
                if !(0 <= row && row < 8 && 0 <= col && col < 8) {
                    assert(ray(b, color, row as int, col as int, dr as int, dc as int, (8 - line@.len()) as nat) is None);
                    done = true;
                } else {
                    let candidate = Position { row: row as u8, col: col as u8 };
                    let disc = self.disc_at(candidate);
                    assert(b[row as int][col as int] == disc);
                    if disc == other {
                        assert(candidate == pos(row as int, col as int));
                        let ghost old_line = line@;
                        line.push(candidate);
                        proof {
                            assert(old_line + seq![candidate] =~= line@);
                            match ray(b, color, row + dr, col + dc, dr as int, dc as int, (7 - old_line.len()) as nat) {
                                Some(s) => {
                                    assert(old_line + (seq![candidate] + s) =~= line@ + s);
                                },
                                None => {},
                            }
                        }
                        row = row + dr;
                        col = col + dc;
                    } else {
                        if disc == own {
                            assert(ray(b, color, row as int, col as int, dr as int, dc as int, (8 - line@.len()) as nat) == Some(Seq::<Position>::empty()));
                            closed = true;
                            assert(line@ + Seq::<Position>::empty() =~= line@);
                        }
                        else {
                            assert(ray(b, color, row as int, col as int, dr as int, dc as int, (8 - line@.len()) as nat) is None);
                        }
                        done = true;
                    }
                }
            }
            let ghost before = flips@;
            if closed {
                let mut k: usize = 0;
                while k < line.len()
                    invariant
                        0 <= k <= line@.len(),
                        flips@ == before + line@.subrange(0, k as int),
                    decreases line@.len() - k,
                {
                    flips.push(line[k]);
                    assert(before + line@.subrange(0, k + 1) =~= (before + line@.subrange(0, k as int)).push(line@[k as int]));
                    k = k + 1;
                }
                assert(line@.subrange(0, line@.len() as int) =~= line@);
            } else {
                assert(before + Seq::<Position>::empty() =~= before);
            }
            assert(flips@ == flips_upto(b, color, position, d as nat) + line_flips(b, color, position, d as int));
            d = d + 1;
        }
        flips
    }
}


/// Row-major order on squares.
pub open spec fn pos_before(a: Position, b: Position) -> bool {
    a.row < b.row || (a.row == b.row && a.col < b.col)
}

/// Strictly increasing in row-major order.
pub open spec fn sorted_positions(s: Seq<Position>) -> bool {
    forall|i: int, j: int| 0 <= i < j < s.len() ==> pos_before(#[trigger] s[i], #[trigger] s[j])
}

/// The placements on row `r` are squares of that row with a placement, left to right.
pub proof fn lemma_legal_in_row(b: Seq<Seq<Disc>>, color: PlayerColor, r: int, n: nat)
    requires
        0 <= r < 8,
        n <= 8,
    ensures
        legal_in_row(b, color, r, n).len() <= n,
        sorted_positions(legal_in_row(b, color, r, n)),
        forall|i: int|
            0 <= i < legal_in_row(b, color, r, n).len() ==> {
                let p = #[trigger] legal_in_row(b, color, r, n)[i];
                &&& p.row == r
                &&& p.col < n
                &&& is_placement(b, color, p)
            },
        forall|c: int|
            0 <= c < n && is_placement(b, color, pos(r, c)) ==> legal_in_row(
                b,
                color,
                r,
                n,
            ).contains(#[trigger] pos(r, c)),
    decreases n,
{
    if n > 0 {
        lemma_legal_in_row(b, color, r, (n - 1) as nat);
        let prev = legal_in_row(b, color, r, (n - 1) as nat);
        let cur = legal_in_row(b, color, r, n);
        assert forall|c: int|
            0 <= c < n && is_placement(b, color, pos(r, c)) implies cur.contains(
            #[trigger] pos(r, c),
        ) by {
            if c < n - 1 {
                let k = choose|k: int| 0 <= k < prev.len() && prev[k] == pos(r, c);
                assert(cur[k] == pos(r, c));
            } else {
                assert(cur[cur.len() - 1] == pos(r, c));
            }
        }
    }
}

/// The legal placements over the first `n` rows are exactly the squares of
/// those rows where a placement turns a disc, in row-major order.
pub proof fn lemma_legal_rows(b: Seq<Seq<Disc>>, color: PlayerColor, n: nat)
    requires
        n <= 8,
    ensures
        legal_rows(b, color, n).len() <= 8 * n,
        sorted_positions(legal_rows(b, color, n)),
        forall|i: int|
            0 <= i < legal_rows(b, color, n).len() ==> {
                let p = #[trigger] legal_rows(b, color, n)[i];
                &&& p.row < n
                &&& p.col < 8
                &&& is_placement(b, color, p)
            },
        forall|r: int, c: int|
            0 <= r < n && 0 <= c < 8 && is_placement(b, color, pos(r, c)) ==> legal_rows(
                b,
                color,
                n,
            ).contains(#[trigger] pos(r, c)),
    decreases n,
{
    if n > 0 {
        lemma_legal_rows(b, color, (n - 1) as nat);
        lemma_legal_in_row(b, color, n - 1, 8);
        let prev = legal_rows(b, color, (n - 1) as nat);
        let row = legal_in_row(b, color, n - 1, 8);
        let cur = legal_rows(b, color, n);
        assert(cur == prev + row);
        assert forall|i: int|
            0 <= i < cur.len() implies {
                let p = #[trigger] cur[i];
                &&& p.row < n
                &&& p.col < 8
                &&& is_placement(b, color, p)
            } by {
            if i < prev.len() {
                assert(cur[i] == prev[i]);
            } else {
                assert(cur[i] == row[i - prev.len()]);
            }
        }
        assert forall|i: int, j: int| 0 <= i < j < cur.len() implies pos_before(
            #[trigger] cur[i],
            #[trigger] cur[j],
        ) by {
            if j < prev.len() {
                assert(cur[i] == prev[i] && cur[j] == prev[j]);
            } else if i >= prev.len() {
                assert(cur[i] == row[i - prev.len()] && cur[j] == row[j - prev.len()]);
            } else {
                assert(cur[i] == prev[i] && cur[j] == row[j - prev.len()]);
            }
        }
        assert forall|r: int, c: int|
            0 <= r < n && 0 <= c < 8 && is_placement(b, color, pos(r, c)) implies cur.contains(
            #[trigger] pos(r, c),
        ) by {
            if r < n - 1 {
                let k = choose|k: int| 0 <= k < prev.len() && prev[k] == pos(r, c);
                assert(cur[k] == pos(r, c));
            } else {
                let k = choose|k: int| 0 <= k < row.len() && row[k] == pos(r, c);
                assert(cur[prev.len() + k] == pos(r, c));
            }
        }
    }
}

/// A square that a placement list contains is one where a placement turns discs.
pub proof fn lemma_legal_actions(m: GameModel, color: PlayerColor)
    ensures
        legal_actions(m, color).len() <= 64,
        sorted_positions(legal_actions(m, color)),
        forall|p: Position|
            legal_actions(m, color).contains(p) <==> !m.completed && on_board(
                p.row as int,
                p.col as int,
            ) && is_placement(m.board, color, p),
{
    lemma_legal_rows(m.board, color, 8);
    let l = legal_actions(m, color);
    assert forall|p: Position|
        l.contains(p) <==> !m.completed && on_board(p.row as int, p.col as int) && is_placement(
            m.board,
            color,
            p,
        ) by {
        if l.contains(p) {
            let k = choose|k: int| 0 <= k < l.len() && l[k] == p;
            assert(l[k] == p);
        }
        if !m.completed && on_board(p.row as int, p.col as int) && is_placement(m.board, color, p) {
            assert(pos(p.row as int, p.col as int) == p);
        }
    }
}

impl MatchState {
    /// The legal placements of `color` in row-major order; none once the
    /// match is completed.
    pub fn legal_actions_for(&self, color: PlayerColor) -> (positions: Vec<Position>)
        ensures
            positions@ == legal_actions(self@, color),
    {
        if self.completed {
            return Vec::new();
        }
        let mut positions: Vec<Position> = Vec::new();
        let mut row: usize = 0;
        while row < BOARD_SIZE
            invariant
                0 <= row <= 8,
                !self.completed,
                positions@ == legal_rows(self@.board, color, row as nat),
            decreases 8 - row,
        {
            let mut col: usize = 0;
            while col < BOARD_SIZE
                invariant
                    0 <= row < 8,
                    0 <= col <= 8,
                    positions@ == legal_rows(self@.board, color, row as nat) + legal_in_row(
                        self@.board,
                        color,
                        row as int,
                        col as nat,
                    ),
                decreases 8 - col,
            {
                let position = Position { row: row as u8, col: col as u8 };
                let f = self.flips_for(color, position);
                let ghost prev = positions@;
                assert(position == pos(row as int, col as int));
                if f.len() != 0 {
                    positions.push(position);
                }
                assert(positions@ == legal_rows(self@.board, color, row as nat) + legal_in_row(
                    self@.board,
                    color,
                    row as int,
                    (col + 1) as nat,
                ));
                col = col + 1;
            }
            assert(legal_rows(self@.board, color, (row + 1) as nat) == legal_rows(self@.board, color, row as nat) + legal_in_row(self@.board, color, row as int, 8));
            row = row + 1;
        }
        positions
    }
}


/// Every square of a closed run is on the board and holds an opponent disc.
pub proof fn lemma_ray(
    b: Seq<Seq<Disc>>,
    color: PlayerColor,
    r: int,
    c: int,
    dr: int,
    dc: int,
    fuel: nat,
)
    ensures
        ray(b, color, r, c, dr, dc, fuel) matches Some(s) ==> forall|i: int|
            0 <= i < s.len() ==> {
                let q = #[trigger] s[i];
                &&& on_board(q.row as int, q.col as int)
                &&& b[q.row as int][q.col as int] == spec_disc(spec_opponent(color))
            },
    decreases fuel,
{
    if fuel > 0 && on_board(r, c) && b[r][c] == spec_disc(spec_opponent(color)) {
        lemma_ray(b, color, r + dr, c + dc, dr, dc, (fuel - 1) as nat);
        match ray(b, color, r + dr, c + dc, dr, dc, (fuel - 1) as nat) {
            Some(t) => {
                let s = seq![pos(r, c)] + t;
                assert forall|i: int| 0 <= i < s.len() implies {
                    let q = #[trigger] s[i];
                    &&& on_board(q.row as int, q.col as int)
                    &&& b[q.row as int][q.col as int] == spec_disc(spec_opponent(color))
                } by {
                    if i > 0 {
                        assert(s[i] == t[i - 1]);
                    }
                }
            },
            None => {},
        }
    }
}

/// Every square turned along the first `n` directions holds an opponent disc.
pub proof fn lemma_flips_upto(b: Seq<Seq<Disc>>, color: PlayerColor, p: Position, n: nat)
    ensures
        forall|i: int|
            0 <= i < flips_upto(b, color, p, n).len() ==> {
                let q = #[trigger] flips_upto(b, color, p, n)[i];
                &&& on_board(q.row as int, q.col as int)
                &&& b[q.row as int][q.col as int] == spec_disc(spec_opponent(color))
            },
    decreases n,
{
    if n > 0 {
        lemma_flips_upto(b, color, p, (n - 1) as nat);
        let k = n - 1;
        lemma_ray(b, color, p.row + dir_dr(k), p.col + dir_dc(k), dir_dr(k), dir_dc(k), 8);
        let prev = flips_upto(b, color, p, (n - 1) as nat);
        let line = line_flips(b, color, p, k);
        let all = flips_upto(b, color, p, n);
        assert forall|i: int| 0 <= i < all.len() implies {
            let q = #[trigger] all[i];
            &&& on_board(q.row as int, q.col as int)
            &&& b[q.row as int][q.col as int] == spec_disc(spec_opponent(color))
        } by {
            if i < prev.len() {
                assert(all[i] == prev[i]);
            } else {
                assert(all[i] == line[i - prev.len()]);
            }
        }
    }
}

/// The squares a placement turns are on the board and hold opponent discs.
pub proof fn lemma_flips(b: Seq<Seq<Disc>>, color: PlayerColor, p: Position)
    ensures
        forall|i: int|
            0 <= i < flips(b, color, p).len() ==> {
                let q = #[trigger] flips(b, color, p)[i];
                &&& on_board(q.row as int, q.col as int)
                &&& b[q.row as int][q.col as int] == spec_disc(spec_opponent(color))
            },
        flips(b, color, p).len() > 0 ==> on_board(p.row as int, p.col as int) && b[p.row as int][p.col as int] == Disc::Empty,
{
    lemma_flips_upto(b, color, p, 8);
}

impl MatchState {
    fn set_disc(&mut self, position: Position, disc: Disc)
        requires
            on_board(position.row as int, position.col as int),
        ensures
            final(self).current_player == old(self).current_player,
            final(self).turn == old(self).turn,
            final(self).consecutive_passes == old(self).consecutive_passes,
            final(self).completed == old(self).completed,
            final(self).winner_by_forfeit == old(self).winner_by_forfeit,
            forall|r: int, c: int|
                on_board(r, c) ==> #[trigger] final(self)@.board[r][c] == if r == position.row
                    && c == position.col {
                    disc
                } else {
                    old(self)@.board[r][c]
                },
    {
        let r = position.row as usize;
        let mut line = self.board[r];
        line[position.col as usize] = disc;
        self.board[r] = line;
    }

    /// Whether `action` is what the rules ask of `color` now: a pass when
    /// `color` has no legal placement, otherwise one of its legal placements.
    pub fn is_legal_action(&self, color: PlayerColor, action: &Action) -> (b: bool)
        ensures
            b == spec_is_legal_action(self@, color, *action),
    {
        let legal = self.legal_actions_for(color);
        if legal.len() == 0 {
            return action.kind == ActionKind::Pass && action.position.is_none();
        }
        if action.kind != ActionKind::Place {
            return false;
        }
        match action.position {
            Some(position) => {
                let mut i: usize = 0;
                while i < legal.len()
                    invariant
                        0 <= i <= legal@.len(),
                        legal@ == legal_actions(self@, color),
                        legal@.len() > 0,
                        action.kind == ActionKind::Place,
                        action.position == Some(position),
                        forall|j: int| 0 <= j < i ==> legal@[j] != position,
                    decreases legal@.len() - i,
                {
                    if legal[i] == position {
                        assert(legal@[i as int] == position);
                        return true;
                    }
                    i = i + 1;
                }
                false
            },
            None => false,
        }
    }

    fn is_board_full(&self) -> (b: bool)
        ensures
            b == board_full(self@.board),
    {
        let mut r: usize = 0;
        while r < BOARD_SIZE
            invariant
                0 <= r <= 8,
                forall|i: int, c: int| 0 <= i < r && 0 <= c < 8 ==> #[trigger] self@.board[i][c] != Disc::Empty,
            decreases 8 - r,
        {
            let line = self.board[r];
            let mut c: usize = 0;
            while c < BOARD_SIZE
                invariant
                    0 <= r < 8,
                    0 <= c <= 8,
                    line@ == self@.board[r as int],
                    forall|i: int, j: int| 0 <= i < r && 0 <= j < 8 ==> #[trigger] self@.board[i][j] != Disc::Empty,
                    forall|j: int| 0 <= j < c ==> #[trigger] self@.board[r as int][j] != Disc::Empty,
                decreases 8 - c,
            {
                if line[c] == Disc::Empty {
                    return false;
                }
                c = c + 1;
            }
            r = r + 1;
        }
        true
    }
}


/// A sequence with one more element contains exactly one more value.
pub proof fn lemma_contains_push(s: Seq<Position>, q: Position, x: Position)
    ensures
        s.push(q).contains(x) <==> s.contains(x) || x == q,
{
    if s.contains(x) {
        let k = choose|k: int| 0 <= k < s.len() && s[k] == x;
        assert(s.push(q)[k] == x);
    }
    if x == q {
        assert(s.push(q)[s.len() as int] == q);
    }
    if s.push(q).contains(x) {
        let k = choose|k: int| 0 <= k < s.push(q).len() && s.push(q)[k] == x;
        if k < s.len() {
            assert(s[k] == x);
        }
    }
}

impl MatchState {
    /// Plays `action` for the side to move. On success the state becomes
    /// `spec_apply`'s next state; a refused action leaves the state as it was
    /// and reports why.
    pub fn apply_valid_action(&mut self, action: &Action) -> (r: Result<(), &'static str>)
        requires
            spec_apply(old(self)@, *action) matches Ok(t) ==> t.turn <= i32::MAX
                && t.consecutive_passes <= 255,
        ensures
            match spec_apply(old(self)@, *action) {
                Ok(t) => r is Ok && final(self)@ == t,
                Err(e) => r == Err::<(), &'static str>(e) && *final(self) == *old(self),
            },
    {
        let ghost m0 = self@;
        let color = match self.current_player {
            Some(c) => c,
            None => {
                return Err("match is completed");
            },
        };
        let legal = self.legal_actions_for(color);
        if legal.len() == 0 {
            if action.kind != ActionKind::Pass || action.position.is_some() {
                return Err("forced pass turn requires pass");
            }
            self.consecutive_passes = self.consecutive_passes + 1;
        } else {
            if action.kind != ActionKind::Place {
                return Err("legal move turn requires placement");
            }
            let position = match action.position {
                Some(p) => p,
                None => {
                    return Err("placement requires position");
                },
            };
            let turned = self.flips_for(color, position);
            if turned.len() == 0 {
                return Err("placement is not legal");
            }
            proof {
                lemma_flips(m0.board, color, position);
            }
            let disc = color.disc();
            self.set_disc(position, disc);
            proof {
                let s0 = turned@.subrange(0, 0);
                assert(s0 =~= Seq::<Position>::empty());
                assert forall|r: int, c: int| on_board(r, c) implies #[trigger] self@.board[r][c]
                    == if s0.push(position).contains(pos(r, c)) {
                    disc
                } else {
                    m0.board[r][c]
                } by {
                    lemma_contains_push(s0, position, pos(r, c));
                }
            }
            let mut k: usize = 0;
            while k < turned.len()
                invariant
                    0 <= k <= turned@.len(),
                    turned@ == flips(m0.board, color, position),
                    on_board(position.row as int, position.col as int),
                    forall|i: int|
                        0 <= i < turned@.len() ==> on_board(
                            (#[trigger] turned@[i]).row as int,
                            turned@[i].col as int,
                        ),
                    self.current_player == Some(color),
                    self.turn == m0.turn,
                    self.consecutive_passes == m0.consecutive_passes,
                    self.completed == m0.completed,
                    self.winner_by_forfeit == m0.winner_by_forfeit,
                    forall|r: int, c: int|
                        on_board(r, c) ==> #[trigger] self@.board[r][c] == if turned@.subrange(
                            0,
                            k as int,
                        ).push(position).contains(pos(r, c)) {
                            disc
                        } else {
                            m0.board[r][c]
                        },
                decreases turned@.len() - k,
            {
                let q = turned[k];
                let ghost before = self@.board;
                self.set_disc(q, disc);
                proof {
                    let s0 = turned@.subrange(0, k as int);
                    let s1 = turned@.subrange(0, k + 1);
                    assert(s1 =~= s0.push(q));
                    assert forall|r: int, c: int| on_board(r, c) implies #[trigger] self@.board[r][c]
                        == if s1.push(position).contains(pos(r, c)) {
                        disc
                    } else {
                        m0.board[r][c]
                    } by {
                        lemma_contains_push(s0, position, pos(r, c));
                        lemma_contains_push(s0, q, pos(r, c));
                        lemma_contains_push(s1, position, pos(r, c));
                        lemma_contains_push(s0.push(q), position, pos(r, c));
                        assert(before[r][c] == self@.board[r][c] || (r == q.row && c == q.col));
                    }
                }
                k = k + 1;
            }
            proof {
                assert(turned@.subrange(0, turned@.len() as int) =~= turned@);
                let expected = place(m0.board, turned@.push(position), disc);
                assert forall|r: int| 0 <= r < 8 implies #[trigger] self@.board[r] =~= expected[r] by {
                    assert forall|c: int| 0 <= c < 8 implies self@.board[r][c] == #[trigger] expected[r][c] by {
                        assert(on_board(r, c));
                    }
                    assert(self@.board[r] == self.board[r]@);
                }
                assert(self@.board =~= expected);
            }
            self.consecutive_passes = 0;
        }
        let next = color.opponent();
        self.current_player = Some(next);
        self.turn = self.turn + 1;
        if self.is_board_full() || self.consecutive_passes >= 2 {
            self.completed = true;
            self.current_player = None;
        }
        assert(self@ =~~= spec_apply(m0, *action).unwrap());
        Ok(())
    }

    /// Ends the match at once: `loser` forfeits and the other side wins.
    pub fn forfeit(&mut self, loser: PlayerColor)
        ensures
            final(self)@ == forfeited(old(self)@, loser),
            final(self).board == old(self).board,
    {
        self.completed = true;
        self.current_player = None;
        self.winner_by_forfeit = Some(loser.opponent());
    }
}


/// A row holds at most as many discs of one colour as it has squares, and
/// black and white discs together no more.
pub proof fn lemma_count_row(row: Seq<Disc>, n: nat)
    ensures
        count_row(row, Disc::Black, n) + count_row(row, Disc::White, n) + count_row(
            row,
            Disc::Empty,
            n,
        ) == n,
    decreases n,
{
    if n > 0 {
        lemma_count_row(row, (n - 1) as nat);
    }
}

/// Black, white and empty squares of the first `n` rows add up to `8 * n`.
pub proof fn lemma_count_board(b: Seq<Seq<Disc>>, n: nat)
    ensures
        count_board(b, Disc::Black, n) + count_board(b, Disc::White, n) + count_board(
            b,
            Disc::Empty,
            n,
        ) == 8 * n,
    decreases n,
{
    if n > 0 {
        lemma_count_board(b, (n - 1) as nat);
        lemma_count_row(b[n - 1], 8);
    }
}

impl MatchState {
    /// The standard opening: two white and two black discs in the centre,
    /// black to move on turn one.
    pub fn new_standard() -> (s: MatchState)
        ensures
            s@.board == standard_board(),
            s.current_player == Some(PlayerColor::Black),
            s.turn == 1,
            s.consecutive_passes == 0,
            !s.completed,
            s.winner_by_forfeit is None,
    {
        let mut board = [[Disc::Empty; 8]; 8];
        let mut r3 = board[3];
        r3[3] = Disc::White;
        r3[4] = Disc::Black;
        board[3] = r3;
        let mut r4 = board[4];
        r4[3] = Disc::Black;
        r4[4] = Disc::White;
        board[4] = r4;
        let s = MatchState {
            board,
            current_player: Some(PlayerColor::Black),
            turn: 1,
            consecutive_passes: 0,
            completed: false,
            winner_by_forfeit: None,
        };
        assert forall|r: int| 0 <= r < 8 implies #[trigger] s@.board[r] =~= standard_board()[r] by {
            assert(s@.board[r] == s.board[r]@);
        }
        assert(s@.board =~= standard_board());
        s
    }

    /// The four discs of the standard opening.
    pub fn opening() -> (v: Vec<DiscPlacement>)
        ensures
            v@ == seq![
                DiscPlacement { position: Position { row: 3, col: 3 }, disc: Disc::White },
                DiscPlacement { position: Position { row: 3, col: 4 }, disc: Disc::Black },
                DiscPlacement { position: Position { row: 4, col: 3 }, disc: Disc::Black },
                DiscPlacement { position: Position { row: 4, col: 4 }, disc: Disc::White },
            ],
    {
        let mut v = Vec::new();
        v.push(DiscPlacement { position: Position { row: 3, col: 3 }, disc: Disc::White });
        v.push(DiscPlacement { position: Position { row: 3, col: 4 }, disc: Disc::Black });
        v.push(DiscPlacement { position: Position { row: 4, col: 3 }, disc: Disc::Black });
        v.push(DiscPlacement { position: Position { row: 4, col: 4 }, disc: Disc::White });
        v
    }

    fn scores(&self) -> (s: ScoreSummary)
        ensures
            s == spec_scores(self@.board),
            s.black as int == count_discs(self@.board, Disc::Black),
            s.white as int == count_discs(self@.board, Disc::White),
    {
        let mut black: u8 = 0;
        let mut white: u8 = 0;
        let mut r: usize = 0;
        while r < BOARD_SIZE
            invariant
                0 <= r <= 8,
                black as int == count_board(self@.board, Disc::Black, r as nat),
                white as int == count_board(self@.board, Disc::White, r as nat),
                black + white <= 8 * r,
            decreases 8 - r,
        {
            let line = self.board[r];
            let mut c: usize = 0;
            proof {
                lemma_count_row(self@.board[r as int], 8);
            }
            while c < BOARD_SIZE
                invariant
                    0 <= r < 8,
                    0 <= c <= 8,
                    line@ == self@.board[r as int],
                    black as int == count_board(self@.board, Disc::Black, r as nat) + count_row(line@, Disc::Black, c as nat),
                    white as int == count_board(self@.board, Disc::White, r as nat) + count_row(line@, Disc::White, c as nat),
                    black + white <= 8 * r + c,
                decreases 8 - c,
            {
                match line[c] {
                    Disc::Black => {
                        black = black + 1;
                    },
                    Disc::White => {
                        white = white + 1;
                    },
                    Disc::Empty => {},
                }
                c = c + 1;
            }
            r = r + 1;
        }
        ScoreSummary { black, white }
    }

    fn board_vec(&self) -> (v: Vec<Vec<Disc>>)
        ensures
            rows_match(v@, self@.board),
    {
        let mut v: Vec<Vec<Disc>> = Vec::new();
        let mut r: usize = 0;
        while r < BOARD_SIZE
            invariant
                0 <= r <= 8,
                v@.len() == r,
                forall|i: int| 0 <= i < r ==> (#[trigger] v@[i])@ == self@.board[i],
            decreases 8 - r,
        {
            let line = self.board[r];
            let mut row: Vec<Disc> = Vec::new();
            let mut c: usize = 0;
            while c < BOARD_SIZE
                invariant
                    0 <= c <= 8,
                    row@ == line@.subrange(0, c as int),
                decreases 8 - c,
            {
                row.push(line[c]);
                assert(line@.subrange(0, c + 1) =~= line@.subrange(0, c as int).push(line@[c as int]));
                c = c + 1;
            }
            assert(line@.subrange(0, 8) =~= line@);
            v.push(row);
            r = r + 1;
        }
        v
    }

    /// What `color` sees: the board, the side to move, the disc counts, and
    /// its legal placements when it is the one to move.
    pub fn visible_state_for(&self, color: PlayerColor) -> (v: VisibleState)
        ensures
            is_visible_state(v, *self, color),
    {
        let mine = match self.current_player {
            Some(c) => c == color,
            None => false,
        };
        let legal_actions = if mine && !self.completed {
            self.legal_actions_for(color)
        } else {
            Vec::new()
        };
        VisibleState {
            turn: self.turn as u32,
            board: self.board_vec(),
            current_player: self.current_player,
            legal_actions,
            scores: self.scores(),
        }
    }

    /// The replay-safe view of the match.
    pub fn public_state(&self) -> (p: PublicState)
        ensures
            is_public_state(p, *self),
    {
        PublicState {
            turn: self.turn as u32,
            board: self.board_vec(),
            current_player: self.current_player,
            scores: self.scores(),
            completed: self.completed,
        }
    }

    /// Disc counts and winners: the side that did not forfeit, otherwise the
    /// side with more discs, or both sides on equal counts.
    pub fn summary(&self) -> (g: GameSummary)
        ensures
            g.black as int == count_discs(self@.board, Disc::Black),
            g.white as int == count_discs(self@.board, Disc::White),
            g.winners@ == spec_winners(self@),
    {
        let scores = self.scores();
        let mut winners: Vec<PlayerColor> = Vec::new();
        match self.winner_by_forfeit {
            Some(winner) => {
                winners.push(winner);
            },
            None => {
                if scores.black > scores.white {
                    winners.push(PlayerColor::Black);
                } else if scores.white > scores.black {
                    winners.push(PlayerColor::White);
                } else {
                    winners.push(PlayerColor::Black);
                    winners.push(PlayerColor::White);
                }
            },
        }
        assert(winners@ =~= spec_winners(self@));
        GameSummary { black: scores.black, white: scores.white, winners }
    }
}

} // verus!
