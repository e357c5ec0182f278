use reversi_ai_arena::bundle::{ai_manifest, game_manifest};
use reversi_ai_arena::reference::player_name;
use reversi_ai_arena::types::{GAME_ID, GAME_VERSION, RULESET_VERSION};

#[test]
fn game_manifest_matches_reversi_policy() {
    assert_eq!(game_manifest().game_id, GAME_ID);
    assert_eq!(game_manifest().game_version, GAME_VERSION);
    assert_eq!(game_manifest().rulesets[0].ruleset_version, RULESET_VERSION);
    assert_eq!(game_manifest().rulesets[0].player_count, 2);
    assert_eq!(game_manifest().rulesets[0].max_active_bots_per_owner, 3);
}

#[test]
fn ai_manifest_reuses_reference_identity_and_has_bundle_fields() {
    let manifest = ai_manifest();
    assert_eq!(manifest.ai_id.as_deref(), Some(player_name()));
    assert_eq!(manifest.game_id, GAME_ID);
    assert_eq!(manifest.game_version, GAME_VERSION);
    assert_eq!(manifest.runtime.module, "rust-reference-ai.wasm");
    assert_eq!(manifest.runtime.args, vec!["./rust-reference-ai.wasm".to_string()]);
    assert_eq!(manifest.schema_version, "arena-bundle/v1");
    assert_eq!(manifest.artifact_kind, "ai");
}

#[test]
fn game_manifest_names_the_wasi_module_and_schema() {
    let manifest = game_manifest();
    assert_eq!(manifest.schema_version, "arena-bundle/v1");
    assert_eq!(manifest.artifact_kind, "game");
    assert_eq!(manifest.rulesets.len(), 1);
    assert_eq!(manifest.runtime.kind, "wasm-wasi");
    assert_eq!(manifest.runtime.module, "reversi-gamemaster.wasm");
    assert_eq!(GAME_ID, "reversi");
}

#[test]
fn ai_manifest_keeps_the_player_runtime_limits() {
    let manifest = ai_manifest();
    assert_eq!(manifest.ai_id.as_deref(), Some("rust-reference"));
    assert_eq!(manifest.runtime.kind, "wasm-wasi");
    assert_eq!(manifest.runtime.memory_limit_pages, Some(64));
    assert_eq!(manifest.rulesets.len(), 1);
    assert_eq!(manifest.rulesets[0].ruleset_version, RULESET_VERSION);
}
