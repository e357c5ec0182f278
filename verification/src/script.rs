use std::collections::VecDeque;

use vstd::prelude::*;
use vstd::string::StringSliceAdditionalSpecFns;
use vstd::utf8::{decode_utf8, valid_utf8};

use crate::text::{decimal, push_str, push_unsigned, string_from};
use crate::types::{Action, ActionKind, Position, ReversiPlayerTurnParams};

verus! {

/// One token of a move script: a square or an explicit pass.
#[derive(Debug, Clone, Copy, PartialEq, Eq, Structural)]
pub enum ScriptToken {
    Move(Position),
    Pass,
}

/// Whether the bytes at `i` spell `pass`.
pub open spec fn pass_at(b: Seq<u8>, i: int) -> bool {
    &&& i + 4 <= b.len()
    &&& b[i] == 112
    &&& b[i + 1] == 97
    &&& b[i + 2] == 115
    &&& b[i + 3] == 115
}

/// The square a two-byte token names, such as `c4`, or why it names none;
/// `text` is the token as characters, quoted in the message.
pub open spec fn position_from_token(t: Seq<u8>, text: Seq<char>) -> Result<Position, Seq<char>> {
    if t.len() != 2 {
        Err("invalid move token "@ + text)
    } else if !(97 <= t[0] <= 104) {
        Err("invalid file "@ + text)
    } else if !(49 <= t[1] <= 56) {
        Err("invalid rank "@ + text)
    } else {
        Ok(Position { row: (t[1] - 49) as u8, col: (t[0] - 97) as u8 })
    }
}

/// `Ok(l + s)` for `Ok(s)`, the same error otherwise.
pub open spec fn prefixed_tokens(l: Seq<ScriptToken>, r: Result<Seq<ScriptToken>, Seq<char>>) -> Result<
    Seq<ScriptToken>,
    Seq<char>,
> {
    match r {
        Ok(s) => Ok(l + s),
        Err(e) => Err(e),
    }
}

/// The tokens of the script bytes from `i` on: `pass` where the bytes spell
/// it, otherwise a two-byte square; the first bad token ends the parse with
/// a message naming its byte offset or its text.
pub open spec fn parse_from(b: Seq<u8>, i: int) -> Result<Seq<ScriptToken>, Seq<char>>
    decreases b.len() - i,
{
    if i < 0 || i >= b.len() {
        Ok(Seq::empty())
    } else if pass_at(b, i) {
        prefixed_tokens(seq![ScriptToken::Pass], parse_from(b, i + 4))
    } else if i + 2 > b.len() {
        Err("trailing move fragment at byte "@ + decimal(i as nat))
    } else if !valid_utf8(b.subrange(i, i + 2)) {
        Err("non-ascii move token at byte "@ + decimal(i as nat))
    } else {
        match position_from_token(b.subrange(i, i + 2), decode_utf8(b.subrange(i, i + 2))) {
            Err(e) => Err(e),
            Ok(p) => prefixed_tokens(seq![ScriptToken::Move(p)], parse_from(b, i + 2)),
        }
    }
}

/// The tokens of a move script such as `c4e3pass`.
pub open spec fn spec_parse_script(moves: &str) -> Result<Seq<ScriptToken>, Seq<char>> {
    parse_from(moves.spec_bytes(), 0)
}

/// `std::str::from_utf8`: a string slice over `bytes` exactly when they are
/// valid UTF-8; the slice holds those very bytes.
#[verifier::external_body]
fn str_from_utf8(bytes: &[u8]) -> (r: Option<&str>)
    ensures
        r is Some <==> valid_utf8(bytes@),
        r matches Some(s) ==> s.spec_bytes() == bytes@,
{
    std::str::from_utf8(bytes).ok()
}

/// The square a move token names: the file letter `a`..`h` gives the
/// column, the rank digit `1`..`8` the row.
fn parse_position(token: &str) -> (r: Result<Position, String>)
    ensures
        match position_from_token(token.spec_bytes(), token@) {
            Ok(p) => r == Ok::<Position, String>(p),
            Err(m) => r matches Err(e) && e@ == m,
        },
{
    let bytes = token.as_bytes();
    if bytes.len() != 2 {
        let mut m = string_from("invalid move token ");
        push_str(&mut m, token);
        return Err(m);
    }
    let col = if bytes[0] >= 97 && bytes[0] <= 104 {
        bytes[0] - 97
    } else {
        let mut m = string_from("invalid file ");
        push_str(&mut m, token);
        return Err(m);
    };
    let row = if bytes[1] >= 49 && bytes[1] <= 56 {
        bytes[1] - 49
    } else {
        let mut m = string_from("invalid rank ");
        push_str(&mut m, token);
        return Err(m);
    };
    Ok(Position { row, col })
}

/// Splits a move script into tokens: `pass`, or a file letter and a rank
/// digit such as `c4`; a fragment that is cut short, not valid UTF-8, or not
/// a square fails the whole script.
pub fn parse_script_tokens(moves: &str) -> (r: Result<Vec<ScriptToken>, String>)
    ensures
        match spec_parse_script(moves) {
            Ok(t) => r matches Ok(v) && v@ == t,
            Err(m) => r matches Err(e) && e@ == m,
        },
{
    let bytes = moves.as_bytes();
    let ghost b = bytes@;
    let mut index: usize = 0;
    let mut tokens: Vec<ScriptToken> = Vec::new();
    while index < bytes.len()
        invariant
            b == bytes@,
            b == moves.spec_bytes(),
            0 <= index <= b.len(),
            parse_from(b, 0) == prefixed_tokens(tokens@, parse_from(b, index as int)),
        decreases b.len() - index,
    {
        if bytes.len() - index >= 4 && bytes[index] == 112 && bytes[index + 1] == 97
            && bytes[index + 2] == 115 && bytes[index + 3] == 115 {
            let ghost before = tokens@;
            tokens.push(ScriptToken::Pass);
            proof {
                assert(before + seq![ScriptToken::Pass] =~= tokens@);
                match parse_from(b, index + 4) {
                    Ok(s) => {
                        assert(before + (seq![ScriptToken::Pass] + s) =~= tokens@ + s);
                    },
                    Err(_) => {},
                }
            }
            index = index + 4;
            continue;
        }
        if bytes.len() - index < 2 {
            let mut m = string_from("trailing move fragment at byte ");
            push_unsigned(&mut m, index as u64);
            return Err(m);
        }
        let token = match str_from_utf8(&bytes[index..index + 2]) {
            Some(t) => t,
            None => {
                let mut m = string_from("non-ascii move token at byte ");
                push_unsigned(&mut m, index as u64);
                return Err(m);
            },
        };
        proof {
            assert(bytes@.subrange(index as int, index + 2) == b.subrange(index as int, index + 2));
            vstd::utf8::encode_utf8_decode_utf8(token@);
            assert(decode_utf8(token.spec_bytes()) == token@);
        }
        let position = match parse_position(token) {
            Ok(p) => p,
            Err(e) => {
                return Err(e);
            },
        };
        let ghost before = tokens@;
        tokens.push(ScriptToken::Move(position));
        proof {
            assert(before + seq![ScriptToken::Move(position)] =~= tokens@);
            match parse_from(b, index + 2) {
                Ok(s) => {
                    assert(before + (seq![ScriptToken::Move(position)] + s) =~= tokens@ + s);
                },
                Err(_) => {},
            }
        }
        index = index + 2;
    }
    assert(tokens@ + Seq::<ScriptToken>::empty() =~= tokens@);
    Ok(tokens)
}

/// A scripted player: it plays its script token by token, then the first
/// legal placement of each hint.
#[derive(Debug)]
pub struct ScriptedStrategy {
    remaining: VecDeque<ScriptToken>,
}

/// The first hinted placement, or a pass when the hint lists none.
pub open spec fn first_legal(params: ReversiPlayerTurnParams) -> Action {
    if params.legal_action_hint.legal_actions@.len() > 0 {
        Action {
            kind: ActionKind::Place,
            position: Some(params.legal_action_hint.legal_actions@[0]),
        }
    } else {
        Action { kind: ActionKind::Pass, position: None }
    }
}

/// The action a script token stands for.
pub open spec fn token_action(t: ScriptToken) -> Action {
    match t {
        ScriptToken::Move(p) => Action { kind: ActionKind::Place, position: Some(p) },
        ScriptToken::Pass => Action { kind: ActionKind::Pass, position: None },
    }
}

/// Places on the first square the hint lists, or passes when it lists none.
pub fn choose_first_legal(params: &ReversiPlayerTurnParams) -> (a: Action)
    ensures
        a == first_legal(*params),
{
    if params.legal_action_hint.legal_actions.len() > 0 {
        Action {
            kind: ActionKind::Place,
            position: Some(params.legal_action_hint.legal_actions[0]),
        }
    } else {
        Action { kind: ActionKind::Pass, position: None }
    }
}

impl ScriptedStrategy {
    /// The tokens still to play.
    pub closed spec fn remaining_view(&self) -> Seq<ScriptToken> {
        self.remaining@
    }

    /// A strategy that plays the tokens of `moves`.
    pub fn from_moves(moves: &str) -> (r: Result<Self, String>)
        ensures
            match spec_parse_script(moves) {
                Ok(t) => r matches Ok(s) && s.remaining_view() == t,
                Err(m) => r matches Err(e) && e@ == m,
            },
    {
        let tokens = match parse_script_tokens(moves) {
            Ok(t) => t,
            Err(e) => {
                return Err(e);
            },
        };
        let mut remaining: VecDeque<ScriptToken> = VecDeque::new();
        let mut i: usize = 0;
        while i < tokens.len()
            invariant
                0 <= i <= tokens@.len(),
                remaining@ =~= tokens@.subrange(0, i as int),
            decreases tokens@.len() - i,
        {
            remaining.push_back(tokens[i]);
            i = i + 1;
        }
        assert(remaining@ =~= tokens@);
        Ok(ScriptedStrategy { remaining })
    }

    /// The next scripted action; once the script is used up, the first
    /// hinted placement or a pass.
    pub fn next_action(&mut self, params: &ReversiPlayerTurnParams) -> (a: Action)
        ensures
            old(self).remaining_view().len() > 0 ==> a == token_action(old(self).remaining_view()[0])
                && final(self).remaining_view() == old(self).remaining_view().drop_first(),
            old(self).remaining_view().len() == 0 ==> a == first_legal(*params)
                && final(self).remaining_view() == old(self).remaining_view(),
    {
        match self.remaining.pop_front() {
            Some(ScriptToken::Move(position)) => Action {
                kind: ActionKind::Place,
                position: Some(position),
            },
            Some(ScriptToken::Pass) => Action { kind: ActionKind::Pass, position: None },
            None => choose_first_legal(params),
        }
    }
}

} // verus!
