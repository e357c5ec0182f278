use reversi_ai_arena::commands::{
    check_match_ready, fixture_command_for, gm_command_for, scripted_moves_arg, gm_error_response, is_shutdown_response, parse_export_args,
    player_command_for, player_request_id, request_id_or_empty, shutdown_response, ExportArgs,
    GmCommand, PlayerCommand, EXPORT_USAGE, GM_ERROR_CODE,
};
use reversi_ai_arena::protocol::{ErrorObject, Request};

fn request(id: Option<&str>, method: &str) -> Request {
    Request {
        jsonrpc: "2.0".to_string(),
        id: id.map(|s| s.to_string()),
        method: method.to_string(),
        params: None,
    }
}

fn args(items: &[&str]) -> Vec<String> {
    items.iter().map(|s| s.to_string()).collect()
}

#[test]
fn game_master_methods_name_their_commands() {
    let cases = [
        ("metadata", GmCommand::Metadata),
        ("initialize_match", GmCommand::InitializeMatch),
        ("next_decision_step", GmCommand::NextDecisionStep),
        ("normalize_action", GmCommand::NormalizeAction),
        ("apply_decision_results", GmCommand::ApplyDecisionResults),
        ("current_snapshot", GmCommand::CurrentSnapshot),
        ("current_exported_snapshot", GmCommand::CurrentExportedSnapshot),
        ("current_result", GmCommand::CurrentResult),
        ("shutdown", GmCommand::Shutdown),
    ];
    for (method, command) in cases {
        assert_eq!(gm_command_for(method), Ok(command));
    }
}

#[test]
fn unknown_game_master_method_is_refused_by_name() {
    assert_eq!(gm_command_for("turn"), Err("unsupported method turn".to_string()));
    assert_eq!(gm_command_for(""), Err("unsupported method ".to_string()));
}

#[test]
fn match_commands_wait_for_initialize_match() {
    assert_eq!(
        check_match_ready(GmCommand::NextDecisionStep, false),
        Err("match is not initialized".to_string())
    );
    assert_eq!(check_match_ready(GmCommand::NextDecisionStep, true), Ok(()));
    assert_eq!(check_match_ready(GmCommand::Metadata, false), Ok(()));
    assert_eq!(check_match_ready(GmCommand::InitializeMatch, false), Ok(()));
    assert_eq!(check_match_ready(GmCommand::Shutdown, false), Ok(()));
    assert!(check_match_ready(GmCommand::CurrentResult, false).is_err());
}

#[test]
fn refused_game_master_request_is_answered_with_its_id() {
    let id = request_id_or_empty(&request(Some("7"), "bogus"));
    let response = gm_error_response(id, "unsupported method bogus".to_string());
    assert_eq!(response.jsonrpc, "2.0");
    assert_eq!(response.id, "7");
    assert!(response.result.is_none());
    assert_eq!(
        response.error,
        Some(ErrorObject { code: GM_ERROR_CODE, message: "unsupported method bogus".to_string() })
    );
    assert_eq!(GM_ERROR_CODE, -32000);
    assert_eq!(request_id_or_empty(&request(None, "metadata")), "");
}

#[test]
fn shutdown_answer_ends_the_session() {
    let mut ok = serde_json::Map::new();
    ok.insert("ok".to_string(), serde_json::Value::Bool(true));
    let ok = serde_json::Value::Object(ok);
    let response = shutdown_response(ok.clone());
    assert_eq!(response.id, "__shutdown__");
    assert_eq!(response.result, Some(ok));
    assert!(response.error.is_none());
    assert!(is_shutdown_response(&response));
    let other = gm_error_response("1".to_string(), "x".to_string());
    assert!(!is_shutdown_response(&other));
}

#[test]
fn player_methods_name_their_commands() {
    assert_eq!(player_command_for("init"), Ok(PlayerCommand::Init));
    assert_eq!(player_command_for("turn"), Ok(PlayerCommand::Turn));
    assert_eq!(player_command_for("game_over"), Ok(PlayerCommand::GameOver));
    assert_eq!(player_command_for("shutdown"), Err("unsupported method: shutdown".to_string()));
}

#[test]
fn player_request_without_id_is_refused() {
    assert_eq!(player_request_id(&request(Some("req-1"), "turn")), Ok("req-1".to_string()));
    assert_eq!(
        player_request_id(&request(None, "turn")),
        Err("request turn is missing an id".to_string())
    );
}

#[test]
fn export_args_take_one_directory_and_the_pass_flag() {
    assert_eq!(
        parse_export_args(&args(&["out/match-1"])),
        Ok(ExportArgs { include_pass: false, input_dir: "out/match-1".to_string() })
    );
    assert_eq!(
        parse_export_args(&args(&["--include-pass", "out"])),
        Ok(ExportArgs { include_pass: true, input_dir: "out".to_string() })
    );
    assert_eq!(
        parse_export_args(&args(&["out", "--include-pass"])),
        Ok(ExportArgs { include_pass: true, input_dir: "out".to_string() })
    );
}

#[test]
fn export_args_refusals_carry_the_usage() {
    let usage = "usage: reversi-kifu-export [--include-pass] <artifact-dir>";
    assert_eq!(EXPORT_USAGE, usage);
    assert_eq!(parse_export_args(&args(&[])), Err(usage.to_string()));
    assert_eq!(parse_export_args(&args(&["--include-pass"])), Err(usage.to_string()));
    assert_eq!(parse_export_args(&args(&["--help", "out"])), Err(usage.to_string()));
    assert_eq!(parse_export_args(&args(&["out", "-h"])), Err(usage.to_string()));
    assert_eq!(
        parse_export_args(&args(&["--verbose", "out"])),
        Err(format!("unsupported option --verbose\n\n{usage}"))
    );
    assert_eq!(
        parse_export_args(&args(&["a", "b"])),
        Err(format!("expected one artifact directory\n\n{usage}"))
    );
}

#[test]
fn fixture_players_refuse_unknown_methods_by_name() {
    assert_eq!(fixture_command_for("init"), Ok(PlayerCommand::Init));
    assert_eq!(fixture_command_for("turn"), Ok(PlayerCommand::Turn));
    assert_eq!(fixture_command_for("game_over"), Ok(PlayerCommand::GameOver));
    assert_eq!(fixture_command_for("metadata"), Err("unsupported method metadata".to_string()));
}

#[test]
fn scripted_player_takes_the_moves_after_the_flag() {
    assert_eq!(scripted_moves_arg(&args(&["--moves", "c4e3pass"])), Ok("c4e3pass".to_string()));
    assert_eq!(scripted_moves_arg(&args(&["--moves", "c4", "extra"])), Ok("c4".to_string()));
    let usage = Err("expected --moves <sequence>".to_string());
    assert_eq!(scripted_moves_arg(&args(&[])), usage);
    assert_eq!(scripted_moves_arg(&args(&["--moves"])), usage);
    assert_eq!(scripted_moves_arg(&args(&["--move", "c4"])), usage);
}
