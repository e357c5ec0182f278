use reversi_ai_arena::kifu::{
    candidate_choice, select_source_kind, CandidateChoice, transcript_from_events, ArtifactEvent, ArtifactSourceKind,
    TranscriptEntry, TurnResultPayload,
};
use reversi_ai_arena::types::{Action, ActionKind, Position};

fn requested(seq: i32) -> ArtifactEvent {
    ArtifactEvent {
        seq,
        kind: "turn_requested".to_string(),
        payload: None,
    }
}

fn accepted(seq: i32, action: Option<Action>) -> ArtifactEvent {
    ArtifactEvent {
        seq,
        kind: "turn_result".to_string(),
        payload: Some(TurnResultPayload {
            action_status: Some("accepted".to_string()),
            action,
        }),
    }
}

fn timed_out(seq: i32) -> ArtifactEvent {
    ArtifactEvent {
        seq,
        kind: "turn_result".to_string(),
        payload: Some(TurnResultPayload {
            action_status: Some("no_action".to_string()),
            action: None,
        }),
    }
}

fn place(row: u8, col: u8) -> Option<Action> {
    Some(Action {
        kind: ActionKind::Place,
        position: Some(Position { row, col }),
    })
}

fn pass() -> Option<Action> {
    Some(Action {
        kind: ActionKind::Pass,
        position: None,
    })
}

/// The event log of the match with a forced pass: c4, e3, pass, f5.
fn record_with_pass_events() -> Vec<ArtifactEvent> {
    vec![
        requested(1),
        accepted(2, place(3, 2)),
        requested(3),
        accepted(4, place(2, 4)),
        requested(5),
        accepted(6, pass()),
        requested(7),
        accepted(8, place(4, 5)),
    ]
}

/// The same match as a history log, with a refused answer on the way.
fn history_only_events() -> Vec<ArtifactEvent> {
    vec![
        accepted(1, place(3, 2)),
        timed_out(2),
        accepted(3, place(2, 4)),
        accepted(4, pass()),
        accepted(5, place(4, 5)),
    ]
}

fn expected_entries() -> Vec<TranscriptEntry> {
    vec![
        TranscriptEntry::Move(Position { row: 3, col: 2 }),
        TranscriptEntry::Move(Position { row: 2, col: 4 }),
        TranscriptEntry::Pass,
        TranscriptEntry::Move(Position { row: 4, col: 5 }),
    ]
}

#[test]
fn reads_transcript_from_match_directory_record_fixture() {
    let transcript = transcript_from_events(&record_with_pass_events()).expect("load transcript");
    assert_eq!(transcript.entries(), &expected_entries()[..]);
}

#[test]
fn resolves_single_match_subdirectory_from_output_dir() {
    assert_eq!(select_source_kind(false, true), Some(ArtifactSourceKind::History));
    let transcript = transcript_from_events(&history_only_events()).expect("load transcript");
    assert_eq!(transcript.entries(), &expected_entries()[..]);
}

#[test]
fn prefers_record_over_history_when_both_exist() {
    assert_eq!(select_source_kind(true, true), Some(ArtifactSourceKind::Record));
    let transcript = transcript_from_events(&record_with_pass_events()).expect("load transcript");
    assert_eq!(transcript.render_compact().expect("compact"), "c4e3f5");
}

#[test]
fn compact_output_drops_pass() {
    let transcript = transcript_from_events(&record_with_pass_events()).expect("load transcript");
    assert_eq!(transcript.render_compact().expect("compact"), "c4e3f5");
}

#[test]
fn lossless_output_keeps_pass() {
    let transcript = transcript_from_events(&history_only_events()).expect("load transcript");
    assert_eq!(transcript.render_lossless().expect("lossless"), "c4e3passf5");
}

#[test]
fn no_artifact_file_selects_nothing() {
    assert_eq!(select_source_kind(false, false), None);
    assert_eq!(select_source_kind(true, false), Some(ArtifactSourceKind::Record));
}

#[test]
fn malformed_turns_are_reported_with_their_sequence_number() {
    let missing_payload = vec![ArtifactEvent {
        seq: 7,
        kind: "turn_result".to_string(),
        payload: None,
    }];
    assert_eq!(
        transcript_from_events(&missing_payload).unwrap_err(),
        "turn_result at seq 7 is missing payload"
    );
    assert_eq!(
        transcript_from_events(&[accepted(12, None)]).unwrap_err(),
        "accepted turn_result at seq 12 is missing action"
    );
    assert_eq!(
        transcript_from_events(&[accepted(
            -3,
            Some(Action {
                kind: ActionKind::Place,
                position: None
            })
        )])
        .unwrap_err(),
        "accepted placement at seq -3 is missing position"
    );
    assert_eq!(
        transcript_from_events(&[
            accepted(1, place(3, 2)),
            accepted(
                40,
                Some(Action {
                    kind: ActionKind::Pass,
                    position: Some(Position { row: 0, col: 0 })
                })
            )
        ])
        .unwrap_err(),
        "pass action at seq 40 must not carry position"
    );
}

#[test]
fn out_of_range_square_cannot_be_rendered() {
    let transcript = transcript_from_events(&[accepted(1, place(8, 0))]).expect("load");
    assert_eq!(
        transcript.render_compact().unwrap_err(),
        "position out of range for transcript rendering: row=8, col=0"
    );
    let passes = transcript_from_events(&[accepted(1, pass()), accepted(2, place(7, 7))]).expect("load");
    assert_eq!(passes.render_compact().expect("compact"), "h8");
    assert_eq!(passes.render_lossless().expect("lossless"), "passh8");
}

#[test]
fn empty_log_gives_empty_transcript() {
    let transcript = transcript_from_events(&[]).expect("load");
    assert!(transcript.entries().is_empty());
    assert_eq!(transcript.render_lossless().expect("lossless"), "");
}

#[test]
fn output_directory_resolves_only_with_one_match_directory() {
    assert_eq!(candidate_choice(0), CandidateChoice::Missing);
    assert_eq!(candidate_choice(1), CandidateChoice::Single);
    assert_eq!(candidate_choice(2), CandidateChoice::Ambiguous);
    assert_eq!(candidate_choice(7), CandidateChoice::Ambiguous);
}

#[test]
fn compact_text_is_lossless_text_without_pass_tokens() {
    let transcript = transcript_from_events(&record_with_pass_events()).expect("load transcript");
    let lossless = transcript.render_lossless().expect("lossless");
    let compact = transcript.render_compact().expect("compact");
    assert_eq!(lossless, "c4e3passf5");
    assert_eq!(compact, lossless.replace("pass", ""));
}
