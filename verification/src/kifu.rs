use vstd::prelude::*;

use crate::text::{
    decimal, push_char, push_signed, push_str, push_unsigned, same_text, signed_decimal, string_from,
};
use crate::types::{Action, ActionKind, Position};

verus! {

/// One turn of a transcript: a placement or an explicit pass.
#[derive(Debug, Clone, Copy, PartialEq, Eq, Structural)]
pub enum TranscriptEntry {
    Move(Position),
    Pass,
}

/// The ordered accepted turns of a match.
#[derive(Debug, Clone, PartialEq, Eq)]
pub struct Transcript {
    entries: Vec<TranscriptEntry>,
}

impl View for Transcript {
    type V = Seq<TranscriptEntry>;

    /// The turns in order.
    closed spec fn view(&self) -> Seq<TranscriptEntry> {
        self.entries@
    }
}

/// The part of a turn result that the transcript reads.
#[derive(Debug, Clone, PartialEq, Eq)]
pub struct TurnResultPayload {
    pub action_status: Option<String>,
    pub action: Option<Action>,
}

/// One entry of a runner's event log.
#[derive(Debug, Clone, PartialEq, Eq)]
pub struct ArtifactEvent {
    pub seq: i32,
    pub kind: String,
    pub payload: Option<TurnResultPayload>,
}

/// Which artifact file a match directory is read from.
#[derive(Debug, Clone, Copy, PartialEq, Eq, Structural)]
pub enum ArtifactSourceKind {
    Record,
    History,
}

/// What one event contributes to a transcript.
pub enum EventEffect {
    Skip,
    Add(TranscriptEntry),
    Fail(Seq<char>),
}

/// The text "`prefix` at seq `seq` `suffix`".
pub open spec fn at_seq(prefix: Seq<char>, seq: i32, suffix: Seq<char>) -> Seq<char> {
    prefix + " at seq "@ + signed_decimal(seq as int) + suffix
}

/// What `e` contributes: non-turn events and turns that were not accepted are
/// skipped; an accepted turn adds its placement or pass; a malformed turn
/// fails with a message naming its sequence number.
pub open spec fn event_effect(e: ArtifactEvent) -> EventEffect {
    if e.kind@ != "turn_result"@ {
        EventEffect::Skip
    } else {
        match e.payload {
            None => EventEffect::Fail(at_seq("turn_result"@, e.seq, " is missing payload"@)),
            Some(payload) => {
                if !(payload.action_status matches Some(st) && st@ == "accepted"@) {
                    EventEffect::Skip
                } else {
                    match payload.action {
                        None => EventEffect::Fail(
                            at_seq("accepted turn_result"@, e.seq, " is missing action"@),
                        ),
                        Some(action) => match action.kind {
                            ActionKind::Place => match action.position {
                                None => EventEffect::Fail(
                                    at_seq(
                                        "accepted placement"@,
                                        e.seq,
                                        " is missing position"@,
                                    ),
                                ),
                                Some(p) => EventEffect::Add(TranscriptEntry::Move(p)),
                            },
                            ActionKind::Pass => if action.position is Some {
                                EventEffect::Fail(
                                    at_seq("pass action"@, e.seq, " must not carry position"@),
                                )
                            } else {
                                EventEffect::Add(TranscriptEntry::Pass)
                            },
                        },
                    }
                }
            },
        }
    }
}

/// The transcript of the first `n` events, or the message of the first
/// malformed one.
pub open spec fn events_transcript(events: Seq<ArtifactEvent>, n: nat) -> Result<
    Seq<TranscriptEntry>,
    Seq<char>,
>
    decreases n,
{
    if n == 0 {
        Ok(Seq::empty())
    } else {
        match events_transcript(events, (n - 1) as nat) {
            Err(m) => Err(m),
            Ok(entries) => match event_effect(events[n - 1]) {
                EventEffect::Skip => Ok(entries),
                EventEffect::Add(t) => Ok(entries.push(t)),
                EventEffect::Fail(m) => Err(m),
            },
        }
    }
}

/// Once an event log fails, every longer prefix fails with the same message.
pub proof fn lemma_events_failure_sticks(events: Seq<ArtifactEvent>, n: nat, k: nat)
    requires
        n <= k,
        events_transcript(events, n) is Err,
    ensures
        events_transcript(events, k) == events_transcript(events, n),
    decreases k - n,
{
    if n < k {
        lemma_events_failure_sticks(events, n, (k - 1) as nat);
    }
}

/// The coordinate text of a square, such as `c4`, or why it has none.
pub open spec fn position_text(p: Position) -> Result<Seq<char>, Seq<char>> {
    if p.col > 7 || p.row > 7 {
        Err(
            "position out of range for transcript rendering: row="@ + decimal(p.row as nat)
                + ", col="@ + decimal(p.col as nat),
        )
    } else {
        Ok(seq![(97 + p.col) as char, (49 + p.row) as char])
    }
}

/// The text of the first `n` entries: placements as coordinates, passes as
/// `pass` when `include_pass`, otherwise left out.
pub open spec fn rendered(entries: Seq<TranscriptEntry>, include_pass: bool, n: nat) -> Result<
    Seq<char>,
    Seq<char>,
>
    decreases n,
{
    if n == 0 {
        Ok(Seq::empty())
    } else {
        match rendered(entries, include_pass, (n - 1) as nat) {
            Err(m) => Err(m),
            Ok(text) => match entries[n - 1] {
                TranscriptEntry::Move(p) => match position_text(p) {
                    Ok(t) => Ok(text + t),
                    Err(m) => Err(m),
                },
                TranscriptEntry::Pass => if include_pass {
                    Ok(text + "pass"@)
                } else {
                    Ok(text)
                },
            },
        }
    }
}

/// Once rendering fails, every longer prefix fails with the same message.
pub proof fn lemma_render_failure_sticks(
    entries: Seq<TranscriptEntry>,
    include_pass: bool,
    n: nat,
    k: nat,
)
    requires
        n <= k,
        rendered(entries, include_pass, n) is Err,
    ensures
        rendered(entries, include_pass, k) == rendered(entries, include_pass, n),
    decreases k - n,
{
    if n < k {
        lemma_render_failure_sticks(entries, include_pass, n, (k - 1) as nat);
    }
}

/// The artifact file to read from a directory: `record.json` whenever it is
/// there, `history.json` otherwise, none when neither is.
pub open spec fn spec_source_kind(record_is_file: bool, history_is_file: bool) -> Option<
    ArtifactSourceKind,
> {
    if record_is_file {
        Some(ArtifactSourceKind::Record)
    } else if history_is_file {
        Some(ArtifactSourceKind::History)
    } else {
        None
    }
}

/// How many match directories below an output directory hold artifacts.
#[derive(Debug, Clone, Copy, PartialEq, Eq, Structural)]
pub enum CandidateChoice {
    Missing,
    Single,
    Ambiguous,
}

/// An output directory resolves only when exactly one of its match
/// directories holds artifacts.
pub fn candidate_choice(count: usize) -> (c: CandidateChoice)
    ensures
        count == 0 ==> c == CandidateChoice::Missing,
        count == 1 ==> c == CandidateChoice::Single,
        count > 1 ==> c == CandidateChoice::Ambiguous,
{
    if count == 0 {
        CandidateChoice::Missing
    } else if count == 1 {
        CandidateChoice::Single
    } else {
        CandidateChoice::Ambiguous
    }
}

/// Chooses the artifact file of a match directory from which files exist.
pub fn select_source_kind(record_is_file: bool, history_is_file: bool) -> (k: Option<
    ArtifactSourceKind,
>)
    ensures
        k == spec_source_kind(record_is_file, history_is_file),
{
    if record_is_file {
        Some(ArtifactSourceKind::Record)
    } else if history_is_file {
        Some(ArtifactSourceKind::History)
    } else {
        None
    }
}

fn seq_message(prefix: &str, seq: i32, suffix: &str) -> (s: String)
    ensures
        s@ == at_seq(prefix@, seq, suffix@),
{
    let mut s = string_from(prefix);
    push_str(&mut s, " at seq ");
    push_signed(&mut s, seq);
    push_str(&mut s, suffix);
    s
}

/// Builds the transcript of an event log: accepted placements and accepted
/// passes in log order; other events and turns that were not accepted are
/// skipped; the first malformed accepted turn makes the whole log fail.
pub fn transcript_from_events(events: &[ArtifactEvent]) -> (r: Result<Transcript, String>)
    ensures
        match events_transcript(events@, events@.len()) {
            Ok(entries) => r matches Ok(t) && t@ == entries,
            Err(m) => r matches Err(e) && e@ == m,
        },
{
    let mut entries: Vec<TranscriptEntry> = Vec::new();
    let mut i: usize = 0;
    while i < events.len()
        invariant
            0 <= i <= events@.len(),
            events_transcript(events@, i as nat) == Ok::<Seq<TranscriptEntry>, Seq<char>>(entries@),
        decreases events@.len() - i,
    {
        let event = &events[i];
        proof {
            reveal_strlit("turn_result");
            reveal_strlit("accepted");
        }
        if same_text(event.kind.as_str(), "turn_result") {
            match &event.payload {
                None => {
                    let m = seq_message("turn_result", event.seq, " is missing payload");
                    proof {
                    lemma_events_failure_sticks(events@, (i + 1) as nat, events@.len());
                }
                return Err(m);
                },
                Some(payload) => {
                    let accepted = match &payload.action_status {
                        Some(st) => same_text(st.as_str(), "accepted"),
                        None => false,
                    };
                    if accepted {
                        match payload.action {
                            None => {
                                let m = seq_message(
                                    "accepted turn_result",
                                    event.seq,
                                    " is missing action",
                                );
                                proof {
                    lemma_events_failure_sticks(events@, (i + 1) as nat, events@.len());
                }
                return Err(m);
                            },
                            Some(action) => {
                                match action.kind {
                                    ActionKind::Place => {
                                        match action.position {
                                            None => {
                                                let m = seq_message(
                                                    "accepted placement",
                                                    event.seq,
                                                    " is missing position",
                                                );
                                                proof {
                    lemma_events_failure_sticks(events@, (i + 1) as nat, events@.len());
                }
                return Err(m);
                                            },
                                            Some(position) => {
                                                entries.push(TranscriptEntry::Move(position));
                                            },
                                        }
                                    },
                                    ActionKind::Pass => {
                                        if action.position.is_some() {
                                            let m = seq_message(
                                                "pass action",
                                                event.seq,
                                                " must not carry position",
                                            );
                                            proof {
                    lemma_events_failure_sticks(events@, (i + 1) as nat, events@.len());
                }
                return Err(m);
                                        }
                                        entries.push(TranscriptEntry::Pass);
                                    },
                                }
                            },
                        }
                    }
                },
            }
        }
        i = i + 1;
    }
    Ok(Transcript { entries })
}

/// The coordinate text of a square: the file letter `a`..`h` from the
/// column, then the rank digit `1`..`8` from the row.
fn format_position(position: Position) -> (r: Result<String, String>)
    ensures
        match position_text(position) {
            Ok(t) => r matches Ok(s) && s@ == t,
            Err(m) => r matches Err(e) && e@ == m,
        },
{
    if position.col > 7 || position.row > 7 {
        let mut m = string_from("position out of range for transcript rendering: row=");
        push_unsigned(&mut m, position.row as u64);
        push_str(&mut m, ", col=");
        push_unsigned(&mut m, position.col as u64);
        return Err(m);
    }
    let file = (97u8 + position.col) as char;
    let rank = (49u8 + position.row) as char;
    let mut s = String::new();
    push_char(&mut s, file);
    push_char(&mut s, rank);
    assert(s@ =~= seq![file, rank]);
    Ok(s)
}

fn render_entries(entries: &[TranscriptEntry], include_pass: bool) -> (r: Result<String, String>)
    ensures
        match rendered(entries@, include_pass, entries@.len()) {
            Ok(t) => r matches Ok(s) && s@ == t,
            Err(m) => r matches Err(e) && e@ == m,
        },
{
    let mut text = String::new();
    let mut i: usize = 0;
    while i < entries.len()
        invariant
            0 <= i <= entries@.len(),
            rendered(entries@, include_pass, i as nat) == Ok::<Seq<char>, Seq<char>>(text@),
        decreases entries@.len() - i,
    {
        match entries[i] {
            TranscriptEntry::Move(position) => {
                match format_position(position) {
                    Ok(t) => {
                        push_str(&mut text, t.as_str());
                    },
                    Err(e) => {
                        proof {
                            lemma_render_failure_sticks(entries@, include_pass, (i + 1) as nat, entries@.len());
                        }
                        return Err(e);
                    },
                }
            },
            TranscriptEntry::Pass => {
                if include_pass {
                    push_str(&mut text, "pass");
                }
            },
        }
        i = i + 1;
    }
    Ok(text)
}

impl Transcript {
    /// The turns in order.
    pub fn entries(&self) -> (e: &[TranscriptEntry])
        ensures
            e@ == self@,
    {
        self.entries.as_slice()
    }

    /// The compact transcript text: placements only, passes left out.
    pub fn render_compact(&self) -> (r: Result<String, String>)
        ensures
            match rendered(self@, false, self@.len()) {
                Ok(t) => r matches Ok(s) && s@ == t,
                Err(m) => r matches Err(e) && e@ == m,
            },
    {
        render_entries(self.entries.as_slice(), false)
    }

    /// The lossless transcript text: placements and `pass` tokens.
    pub fn render_lossless(&self) -> (r: Result<String, String>)
        ensures
            match rendered(self@, true, self@.len()) {
                Ok(t) => r matches Ok(s) && s@ == t,
                Err(m) => r matches Err(e) && e@ == m,
            },
    {
        render_entries(self.entries.as_slice(), true)
    }
}


/// The entries among the first `n` that are placements, in order.
pub open spec fn without_passes(e: Seq<TranscriptEntry>, n: nat) -> Seq<TranscriptEntry>
    decreases n,
{
    if n == 0 {
        Seq::empty()
    } else {
        let prev = without_passes(e, (n - 1) as nat);
        match e[n - 1] {
            TranscriptEntry::Move(_) => prev.push(e[n - 1]),
            TranscriptEntry::Pass => prev,
        }
    }
}

proof fn lemma_rendered_prefix(a: Seq<TranscriptEntry>, b: Seq<TranscriptEntry>, include_pass: bool, k: nat)
    requires
        k <= a.len(),
        k <= b.len(),
        forall|i: int| 0 <= i < k ==> a[i] == b[i],
    ensures
        rendered(a, include_pass, k) == rendered(b, include_pass, k),
    decreases k,
{
    if k > 0 {
        lemma_rendered_prefix(a, b, include_pass, (k - 1) as nat);
    }
}

/// The compact text of a transcript is the lossless text of its placements
/// alone: dropping passes changes nothing else.
pub proof fn law_compact_is_lossless_without_passes(e: Seq<TranscriptEntry>, n: nat)
    requires
        n <= e.len(),
    ensures
        rendered(e, false, n) == rendered(without_passes(e, n), true, without_passes(e, n).len()),
    decreases n,
{
    if n > 0 {
        law_compact_is_lossless_without_passes(e, (n - 1) as nat);
        let prev = without_passes(e, (n - 1) as nat);
        match e[n - 1] {
            TranscriptEntry::Move(_) => {
                let cur = prev.push(e[n - 1]);
                lemma_rendered_prefix(prev, cur, true, prev.len());
            },
            TranscriptEntry::Pass => {},
        }
    }
}

/// A transcript keeps only accepted turns: a log whose turn results were
/// all refused gives an empty transcript.
pub proof fn law_refused_turns_leave_no_trace(events: Seq<ArtifactEvent>, n: nat)
    requires
        n <= events.len(),
        forall|i: int|
            0 <= i < n ==> ((#[trigger] events[i]).payload matches Some(p) && !(p.action_status matches Some(st) && st@ == "accepted"@)),
    ensures
        events_transcript(events, n) == Ok::<Seq<TranscriptEntry>, Seq<char>>(Seq::empty()),
    decreases n,
{
    if n > 0 {
        law_refused_turns_leave_no_trace(events, (n - 1) as nat);
        assert(events[n - 1].payload is Some);
    }
}


/// A text with every `pass` token taken out, reading tokens from the end: a
/// trailing `pass` is dropped, any other last character kept.
pub open spec fn drop_pass_tokens(s: Seq<char>) -> Seq<char>
    decreases s.len(),
{
    if s.len() == 0 {
        s
    } else if s.len() >= 4 && s.subrange(s.len() - 4, s.len() as int) == "pass"@ {
        drop_pass_tokens(s.subrange(0, s.len() - 4))
    } else {
        drop_pass_tokens(s.drop_last()).push(s.last())
    }
}

proof fn lemma_drop_pass_keeps_char(text: Seq<char>, c: char)
    requires
        c != 's',
    ensures
        drop_pass_tokens(text.push(c)) == drop_pass_tokens(text).push(c),
{
    reveal_strlit("pass");
    let s = text.push(c);
    if s.len() >= 4 {
        assert(s.subrange(s.len() - 4, s.len() as int)[3] == c);
        assert("pass"@[3] == 's');
    }
    assert(s.drop_last() =~= text);
}

/// The compact text is the lossless text with its `pass` tokens taken out:
/// both fail together, with the same message, and otherwise the placements
/// stay in order.
pub proof fn law_compact_is_lossless_minus_pass_tokens(e: Seq<TranscriptEntry>, n: nat)
    requires
        n <= e.len(),
    ensures
        rendered(e, true, n) is Ok <==> rendered(e, false, n) is Ok,
        rendered(e, true, n) matches Ok(l) ==> rendered(e, false, n) == Ok::<
            Seq<char>,
            Seq<char>,
        >(drop_pass_tokens(l)),
        rendered(e, true, n) matches Err(m) ==> rendered(e, false, n) == Err::<
            Seq<char>,
            Seq<char>,
        >(m),
    decreases n,
{
    if n > 0 {
        law_compact_is_lossless_minus_pass_tokens(e, (n - 1) as nat);
        if let Ok(l) = rendered(e, true, (n - 1) as nat) {
            match e[n - 1] {
                TranscriptEntry::Move(p) => {
                    if let Ok(t) = position_text(p) {
                        let f = (97 + p.col) as char;
                        let d = (49 + p.row) as char;
                        assert(f != 's');
                        assert(d != 's');
                        assert(l + t =~= l.push(f).push(d));
                        lemma_drop_pass_keeps_char(l, f);
                        lemma_drop_pass_keeps_char(l.push(f), d);
                        assert(drop_pass_tokens(l).push(f).push(d) =~= drop_pass_tokens(l) + t);
                    }
                },
                TranscriptEntry::Pass => {
                    let s = l + "pass"@;
                    reveal_strlit("pass");
                    assert(s.subrange(s.len() - 4, s.len() as int) =~= "pass"@);
                    assert(s.subrange(0, s.len() - 4) =~= l);
                },
            }
        }
    }
}

} // verus!
