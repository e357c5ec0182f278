use reversi_ai_arena::gm_protocol::{
    METHOD_APPLY_DECISION_RESULTS, METHOD_CURRENT_EXPORTED_SNAPSHOT, METHOD_CURRENT_RESULT,
    METHOD_CURRENT_SNAPSHOT, METHOD_INITIALIZE_MATCH, METHOD_METADATA, METHOD_NEXT_DECISION_STEP,
    METHOD_NORMALIZE_ACTION, METHOD_SHUTDOWN,
};
use reversi_ai_arena::player_protocol::{
    GameOverResult, InitResult, SidecarProtocol, METHOD_GAME_OVER, METHOD_INIT, METHOD_TURN,
};
use reversi_ai_arena::protocol::{
    major_version, match_response_id, metadata_compatible, success_response, validate_request,
    validate_response,
    DecodeError, ErrorObject, GameMetadata, MetadataCompatibilityError, Request, Response,
    Transport, JSONRPC_VERSION,
};
use reversi_ai_arena::types::game_metadata;

fn meta(id: &str, version: &str, ruleset: &str) -> GameMetadata {
    GameMetadata {
        game_id: id.to_string(),
        game_version: version.to_string(),
        ruleset_version: ruleset.to_string(),
    }
}

fn json(text: &str) -> serde_json::Value {
    serde_json::from_str(text).expect("json")
}

#[test]
fn metadata_compatibility_requires_matching_major_and_ruleset() {
    let expected = meta("reversi", "1.2.0", "standard");
    let compatible = meta("reversi", "1.9.3", "standard");
    metadata_compatible(&expected, &compatible).expect("compatible");

    let incompatible = meta("reversi", "2.0.0", "standard");
    let err = metadata_compatible(&expected, &incompatible).expect_err("major mismatch");
    assert!(matches!(
        err,
        MetadataCompatibilityError::GameVersionMajorMismatch { .. }
    ));
}

#[test]
fn metadata_mismatches_name_the_first_differing_field() {
    let expected = meta("reversi", "1.0.0", "standard");
    assert_eq!(
        metadata_compatible(&expected, &meta("othello", "2.0.0", "fast")),
        Err(MetadataCompatibilityError::GameIdMismatch {
            expected: "reversi".to_string(),
            actual: "othello".to_string()
        })
    );
    assert_eq!(
        metadata_compatible(&expected, &meta("reversi", "1", "fast")),
        Err(MetadataCompatibilityError::RulesetMismatch {
            expected: "standard".to_string(),
            actual: "fast".to_string()
        })
    );
    assert_eq!(metadata_compatible(&game_metadata(), &game_metadata()), Ok(()));
}

#[test]
fn major_version_is_text_before_first_dot() {
    assert_eq!(major_version("1.2.3"), "1");
    assert_eq!(major_version("10"), "10");
    assert_eq!(major_version(".5"), "");
    assert_eq!(major_version(""), "");
}

#[test]
fn method_constants_match_public_contract() {
    assert_eq!(METHOD_INIT, "init");
    assert_eq!(METHOD_TURN, "turn");
    assert_eq!(METHOD_GAME_OVER, "game_over");
}

#[test]
fn game_master_method_names() {
    assert_eq!(METHOD_METADATA, "metadata");
    assert_eq!(METHOD_INITIALIZE_MATCH, "initialize_match");
    assert_eq!(METHOD_NEXT_DECISION_STEP, "next_decision_step");
    assert_eq!(METHOD_NORMALIZE_ACTION, "normalize_action");
    assert_eq!(METHOD_APPLY_DECISION_RESULTS, "apply_decision_results");
    assert_eq!(METHOD_CURRENT_SNAPSHOT, "current_snapshot");
    assert_eq!(METHOD_CURRENT_EXPORTED_SNAPSHOT, "current_exported_snapshot");
    assert_eq!(METHOD_CURRENT_RESULT, "current_result");
    assert_eq!(METHOD_SHUTDOWN, "shutdown");
}

#[test]
fn response_round_trip_accepts_crlf() {
    let response = Response {
        jsonrpc: "2.0".to_string(),
        id: "init".to_string(),
        result: Some(json("{\"ready\":true}")),
        error: None,
    };
    validate_response(&response).expect("response");
    assert_eq!(response.id, "init");
}

#[test]
fn invalid_envelope_is_rejected() {
    let request = Request {
        jsonrpc: "1.0".to_string(),
        id: Some("x".to_string()),
        method: "turn".to_string(),
        params: None,
    };
    let err = validate_request(&request).expect_err("invalid");
    assert!(matches!(err, DecodeError::InvalidEnvelope(_)));
}

#[test]
fn request_envelope_needs_a_method() {
    let request = Request {
        jsonrpc: JSONRPC_VERSION.to_string(),
        id: None,
        method: String::new(),
        params: None,
    };
    assert!(matches!(
        validate_request(&request),
        Err(DecodeError::InvalidEnvelope("method is required"))
    ));
    let ok = Request {
        method: "turn".to_string(),
        ..request
    };
    assert!(validate_request(&ok).is_ok());
}

#[test]
fn response_envelope_rules() {
    let base = Response {
        jsonrpc: "2.0".to_string(),
        id: "a".to_string(),
        result: None,
        error: None,
    };
    assert!(matches!(
        validate_response(&base),
        Err(DecodeError::InvalidEnvelope("exactly one of result or error is required"))
    ));
    let no_id = Response {
        id: String::new(),
        result: Some(json("1")),
        ..base.clone()
    };
    assert!(matches!(
        validate_response(&no_id),
        Err(DecodeError::InvalidEnvelope("id is required"))
    ));
    let empty_message = Response {
        error: Some(ErrorObject {
            code: -32000,
            message: String::new(),
        }),
        ..base.clone()
    };
    assert!(matches!(
        validate_response(&empty_message),
        Err(DecodeError::InvalidEnvelope("error.message is required"))
    ));
    let both = Response {
        result: Some(json("1")),
        error: Some(ErrorObject {
            code: 1,
            message: "x".to_string(),
        }),
        ..base.clone()
    };
    assert!(validate_response(&both).is_err());
    let old = Response {
        jsonrpc: "1.0".to_string(),
        result: Some(json("1")),
        ..base
    };
    assert!(matches!(
        validate_response(&old),
        Err(DecodeError::InvalidEnvelope("jsonrpc must be 2.0"))
    ));
}

#[test]
fn mismatched_id_is_reported() {
    let response = Response {
        jsonrpc: "2.0".to_string(),
        id: "turn-2".to_string(),
        result: Some(json("{\"action\":\"pass\"}")),
        error: None,
    };
    let err = match_response_id("turn-1", &response).expect_err("mismatch");
    assert!(matches!(err, DecodeError::MismatchedId { .. }));
    match err {
        DecodeError::MismatchedId { expected, actual } => {
            assert_eq!(expected, "turn-1");
            assert_eq!(actual, "turn-2");
        }
        _ => unreachable!(),
    }
    match_response_id("turn-2", &response).expect("same id");
}

#[test]
fn transport_and_results() {
    assert_eq!(Transport::StdioJsonrpcNdjson.as_str(), "stdio-jsonrpc-ndjson");
    assert!(InitResult::ready().ready);
    assert!(GameOverResult::ack().ack);
    let protocol = SidecarProtocol {
        transport: Transport::StdioJsonrpcNdjson,
        game_id: "reversi".to_string(),
        game_version: "1.0.0".to_string(),
        ruleset_version: "standard".to_string(),
    };
    assert_eq!(protocol.metadata(), game_metadata());
}

#[test]
fn decode_errors_describe_themselves() {
    assert_eq!(
        DecodeError::InvalidEnvelope("method is required").describe(),
        "invalid envelope: method is required"
    );
    assert_eq!(
        DecodeError::MismatchedId { expected: "turn-1".to_string(), actual: "turn-2".to_string() }
            .describe(),
        "mismatched id: expected \"turn-1\", got \"turn-2\""
    );
    assert_eq!(
        DecodeError::InvalidVersion("0.9".to_string()).describe(),
        "invalid version: \"0.9\""
    );
    assert_eq!(
        DecodeError::InvalidMetadata("game_id is required").describe(),
        "invalid metadata: game_id is required"
    );
    let bad = serde_json::from_str::<serde_json::Value>("{").unwrap_err();
    let text = bad.to_string();
    assert_eq!(DecodeError::MalformedJson(bad).describe(), format!("malformed json: {text}"));
    let bad = serde_json::from_str::<serde_json::Value>("[").unwrap_err();
    let text = bad.to_string();
    assert_eq!(DecodeError::MalformedPayload(bad).describe(), format!("malformed payload: {text}"));
    let io = std::io::Error::new(std::io::ErrorKind::Other, "pipe closed");
    assert_eq!(DecodeError::Io(io).describe(), "pipe closed");
}

#[test]
fn metadata_errors_describe_both_values() {
    let expected = meta("reversi", "1.2.0", "standard");
    let err = metadata_compatible(&expected, &meta("chess", "1.2.0", "standard")).unwrap_err();
    assert_eq!(err.describe(), "game_id mismatch: expected \"reversi\", got \"chess\"");
    let err = metadata_compatible(&expected, &meta("reversi", "2.0.0", "standard")).unwrap_err();
    assert_eq!(
        err.describe(),
        "game_version major mismatch: expected \"1.2.0\", got \"2.0.0\""
    );
    let err = metadata_compatible(&expected, &meta("reversi", "1.0.0", "blitz")).unwrap_err();
    assert_eq!(err.describe(), "ruleset_version mismatch: expected \"standard\", got \"blitz\"");
}

#[test]
fn success_response_keeps_the_request_id() {
    let response = success_response("init-1", json("{\"ready\":true}"));
    assert_eq!(response.jsonrpc, "2.0");
    assert_eq!(response.id, "init-1");
    assert_eq!(response.result, Some(json("{\"ready\":true}")));
    assert!(response.error.is_none());
    assert!(validate_response(&response).is_ok());
    assert!(validate_response(&success_response("", json("true"))).is_err());
}
