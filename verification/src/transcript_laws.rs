use vstd::prelude::*;
use vstd::utf8::{encode_utf8, is_ascii_chars};

use crate::kifu::{rendered, TranscriptEntry};
use crate::script::{parse_from, pass_at, position_from_token, prefixed_tokens, ScriptToken};
use crate::types::Position;

verus! {

/// The script token a transcript entry stands for.
pub open spec fn entry_token(t: TranscriptEntry) -> ScriptToken {
    match t {
        TranscriptEntry::Move(p) => ScriptToken::Move(p),
        TranscriptEntry::Pass => ScriptToken::Pass,
    }
}

/// The text of one entry in the lossless transcript.
pub open spec fn piece(t: TranscriptEntry) -> Seq<char> {
    match t {
        TranscriptEntry::Move(p) => seq![(97 + p.col) as char, (49 + p.row) as char],
        TranscriptEntry::Pass => seq!['p', 'a', 's', 's'],
    }
}

/// The lossless text of the first `n` entries.
pub open spec fn text_of(e: Seq<TranscriptEntry>, n: nat) -> Seq<char>
    decreases n,
{
    if n == 0 {
        Seq::empty()
    } else {
        text_of(e, (n - 1) as nat) + piece(e[n - 1])
    }
}

/// Every placement of the transcript is a square of the board.
pub open spec fn squares_on_board(e: Seq<TranscriptEntry>) -> bool {
    forall|i: int|
        0 <= i < e.len() ==> match #[trigger] e[i] {
            TranscriptEntry::Move(p) => p.row <= 7 && p.col <= 7,
            TranscriptEntry::Pass => true,
        }
}

proof fn lemma_rendered_text(e: Seq<TranscriptEntry>, n: nat)
    requires
        n <= e.len(),
        squares_on_board(e),
    ensures
        rendered(e, true, n) == Ok::<Seq<char>, Seq<char>>(text_of(e, n)),
        is_ascii_chars(text_of(e, n)),
    decreases n,
{
    if n > 0 {
        lemma_rendered_text(e, (n - 1) as nat);
        let prev = text_of(e, (n - 1) as nat);
        let pc = piece(e[n - 1]);
        assert(e[n - 1] == e[n - 1]);
        reveal_strlit("pass");
        assert(is_ascii_chars(pc)) by {
            match e[n - 1] {
                TranscriptEntry::Move(p) => {
                    assert(p.row <= 7 && p.col <= 7);
                },
                TranscriptEntry::Pass => {},
            }
        }
        vstd::utf8::is_ascii_chars_concat(prev + pc, prev, pc);
        match e[n - 1] {
            TranscriptEntry::Pass => {
                assert("pass"@ =~= seq!['p', 'a', 's', 's']);
            },
            TranscriptEntry::Move(p) => {},
        }
    }
}

proof fn lemma_text_prefix(e: Seq<TranscriptEntry>, m: nat, n: nat)
    requires
        m <= n <= e.len(),
    ensures
        text_of(e, m).len() <= text_of(e, n).len(),
        text_of(e, n).subrange(0, text_of(e, m).len() as int) == text_of(e, m),
    decreases n - m,
{
    if m < n {
        lemma_text_prefix(e, m, (n - 1) as nat);
        let a = text_of(e, (n - 1) as nat);
        let b = text_of(e, n);
        assert(b.subrange(0, text_of(e, m).len() as int) =~= a.subrange(0, text_of(e, m).len() as int));
    } else {
        assert(text_of(e, n).subrange(0, text_of(e, n).len() as int) =~= text_of(e, n));
    }
}

/// The script parse of the lossless text from the start of entry `k` on
/// yields the tokens of the remaining entries.
proof fn lemma_parse_from_entry(e: Seq<TranscriptEntry>, k: nat)
    requires
        k <= e.len(),
        squares_on_board(e),
    ensures
        parse_from(encode_utf8(text_of(e, e.len())), text_of(e, k).len() as int) == Ok::<
            Seq<ScriptToken>,
            Seq<char>,
        >(e.subrange(k as int, e.len() as int).map_values(|t: TranscriptEntry| entry_token(t))),
    decreases e.len() - k,
{
    let text = text_of(e, e.len());
    let b = encode_utf8(text);
    lemma_rendered_text(e, e.len());
    vstd::utf8::is_ascii_chars_encode_utf8(text);
    lemma_text_prefix(e, k, e.len());
    let start = text_of(e, k).len() as int;
    if k == e.len() {
        assert(e.subrange(k as int, e.len() as int).map_values(|t: TranscriptEntry| entry_token(t))
            =~= Seq::<ScriptToken>::empty());
    } else {
        lemma_text_prefix(e, k + 1, e.len());
        lemma_parse_from_entry(e, k + 1);
        let pc = piece(e[k as int]);
        let next = text_of(e, k + 1);
        assert(next == text_of(e, k) + pc);
        assert forall|j: int| 0 <= j < pc.len() implies #[trigger] b[start + j] == pc[j] as u8 by {
            assert(text[start + j] == text.subrange(0, next.len() as int)[start + j]);
            assert(next[start + j] == pc[j]);
        }
        let rest = e.subrange((k + 1) as int, e.len() as int).map_values(|t: TranscriptEntry| entry_token(t));
        let all = e.subrange(k as int, e.len() as int).map_values(|t: TranscriptEntry| entry_token(t));
        assert(all =~= seq![entry_token(e[k as int])] + rest);
        match e[k as int] {
            TranscriptEntry::Pass => {
                assert(pc.len() == 4);
                assert(b[start + 0] == pc[0] as u8);
                assert(b[start + 1] == pc[1] as u8);
                assert(b[start + 2] == pc[2] as u8);
                assert(b[start + 3] == pc[3] as u8);
                assert(pc[0] == 'p' && pc[1] == 'a' && pc[2] == 's' && pc[3] == 's');
                assert(('p' as u8) == 112u8);
                assert(b[start] == 112u8 && b[start + 1] == 97u8 && b[start + 2] == 115u8 && b[start + 3] == 115u8);
                assert(pass_at(b, start));
            },
            TranscriptEntry::Move(p) => {
                assert(p.row <= 7 && p.col <= 7) by {
                    assert(squares_on_board(e));
                    assert(e[k as int] == TranscriptEntry::Move(p));
                }
                let f = (97 + p.col) as char;
                let r = (49 + p.row) as char;
                assert(b[start + 0] == pc[0] as u8);
                assert(b[start + 1] == pc[1] as u8);
                assert(pc[0] == f && pc[1] == r);
                assert(f as int == 97 + p.col);
                assert(r as int == 49 + p.row);
                assert(b[start] == (97 + p.col) as u8);
                assert(b[start + 1] == (49 + p.row) as u8);
                assert(!pass_at(b, start));
                let tok = b.subrange(start, start + 2);
                let chars = seq![f, r];
                assert(is_ascii_chars(chars));
                vstd::utf8::is_ascii_chars_encode_utf8(chars);
                assert(tok =~= encode_utf8(chars));
                vstd::utf8::encode_utf8_valid_utf8(chars);
                vstd::utf8::encode_utf8_decode_utf8(chars);
                assert(position_from_token(tok, chars) == Ok::<Position, Seq<char>>(p));
            },
        }
    }
}

/// The lossless text of a transcript reads back, through the script parser
/// of the scripted player, as exactly the transcript's turns: the two share
/// one move notation.
pub proof fn law_lossless_transcript_replays_as_script(e: Seq<TranscriptEntry>)
    requires
        squares_on_board(e),
    ensures
        rendered(e, true, e.len()) matches Ok(text) && parse_from(encode_utf8(text), 0) == Ok::<
            Seq<ScriptToken>,
            Seq<char>,
        >(e.map_values(|t: TranscriptEntry| entry_token(t))),
{
    lemma_rendered_text(e, e.len());
    lemma_parse_from_entry(e, 0);
    assert(e.subrange(0, e.len() as int) =~= e);
}

} // verus!
