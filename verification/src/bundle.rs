//! The manifests of the release bundles: one for the game master, one for
//! the reference player.

use vstd::prelude::*;

use crate::player_protocol::Runtime;
use crate::reference::sidecar_manifest;
use crate::text::string_from;
use crate::types::{GAME_ID, GAME_VERSION, RULESET_VERSION};

verus! {

/// The schema every bundle manifest declares.
pub const BUNDLE_SCHEMA_VERSION: &'static str = "arena-bundle/v1";

/// The runtime kind of a WebAssembly module run under WASI.
pub const WASM_WASI_KIND: &'static str = "wasm-wasi";

/// The module of the game-master bundle.
pub const GAME_MODULE_FILE: &'static str = "reversi-gamemaster.wasm";

/// The module of the reference player's bundle.
pub const AI_MODULE_FILE: &'static str = "rust-reference-ai.wasm";

/// The argument the reference player's module is started with.
pub const AI_MODULE_ARG: &'static str = "./rust-reference-ai.wasm";

/// Players per Reversi match.
pub const PLAYER_COUNT: u32 = 2;

/// How many bots of one owner may be active at once.
pub const MAX_ACTIVE_BOTS_PER_OWNER: u32 = 3;

/// A ruleset the game bundle offers, with its seating policy.
#[derive(Debug, Clone, PartialEq, Eq)]
pub struct GameRulesetEntry {
    pub ruleset_version: String,
    pub player_count: u32,
    pub max_active_bots_per_owner: u32,
}

/// Where the game bundle's module is.
#[derive(Debug, Clone, PartialEq, Eq)]
pub struct GameBundleRuntime {
    pub kind: String,
    pub module: String,
}

/// The manifest of the game-master bundle.
#[derive(Debug, Clone, PartialEq, Eq)]
pub struct GameBundleManifest {
    pub schema_version: String,
    pub artifact_kind: String,
    pub game_id: String,
    pub game_version: String,
    pub rulesets: Vec<GameRulesetEntry>,
    pub runtime: GameBundleRuntime,
}

/// A ruleset the reference player plays.
#[derive(Debug, Clone, PartialEq, Eq)]
pub struct AiRulesetEntry {
    pub ruleset_version: String,
}

/// How the runner starts the reference player's bundle.
#[derive(Debug, Clone, PartialEq, Eq)]
pub struct AiBundleRuntime {
    pub kind: String,
    pub module: String,
    pub args: Vec<String>,
    pub memory_limit_pages: Option<u32>,
}

/// The manifest of the reference player's bundle.
#[derive(Debug, Clone, PartialEq, Eq)]
pub struct AiBundleManifest {
    pub ai_id: Option<String>,
    pub schema_version: String,
    pub artifact_kind: String,
    pub game_id: String,
    pub game_version: String,
    pub rulesets: Vec<AiRulesetEntry>,
    pub runtime: AiBundleRuntime,
}

/// The game-master bundle: Reversi at this version, the standard ruleset for
/// two players with at most three active bots per owner, run as a WASI module.
pub fn game_manifest() -> (m: GameBundleManifest)
    ensures
        m.schema_version@ == BUNDLE_SCHEMA_VERSION@,
        m.artifact_kind@ == "game"@,
        m.game_id@ == GAME_ID@,
        m.game_version@ == GAME_VERSION@,
        m.rulesets@.len() == 1,
        m.rulesets@[0].ruleset_version@ == RULESET_VERSION@,
        m.rulesets@[0].player_count == PLAYER_COUNT,
        m.rulesets@[0].max_active_bots_per_owner == MAX_ACTIVE_BOTS_PER_OWNER,
        m.runtime.kind@ == WASM_WASI_KIND@,
        m.runtime.module@ == GAME_MODULE_FILE@,
{
    let mut rulesets: Vec<GameRulesetEntry> = Vec::new();
    rulesets.push(
        GameRulesetEntry {
            ruleset_version: string_from(RULESET_VERSION),
            player_count: PLAYER_COUNT,
            max_active_bots_per_owner: MAX_ACTIVE_BOTS_PER_OWNER,
        },
    );
    GameBundleManifest {
        schema_version: string_from(BUNDLE_SCHEMA_VERSION),
        artifact_kind: string_from("game"),
        game_id: string_from(GAME_ID),
        game_version: string_from(GAME_VERSION),
        rulesets,
        runtime: GameBundleRuntime {
            kind: string_from(WASM_WASI_KIND),
            module: string_from(GAME_MODULE_FILE),
        },
    }
}

/// The reference player's bundle: the player's own manifest with its
/// identity and game lifted to the top, the bundle schema and kind, the
/// ruleset it plays, and its WASI runtime pointed at the bundled module.
pub fn ai_manifest() -> (m: AiBundleManifest)
    ensures
        m.ai_id matches Some(id) && id@ == "rust-reference"@,
        m.schema_version@ == BUNDLE_SCHEMA_VERSION@,
        m.artifact_kind@ == "ai"@,
        m.game_id@ == GAME_ID@,
        m.game_version@ == GAME_VERSION@,
        m.rulesets@.len() == 1,
        m.rulesets@[0].ruleset_version@ == RULESET_VERSION@,
        m.runtime.kind@ == WASM_WASI_KIND@,
        m.runtime.module@ == AI_MODULE_FILE@,
        m.runtime.args@.len() == 1,
        m.runtime.args@[0]@ == AI_MODULE_ARG@,
        m.runtime.memory_limit_pages == Some(64u32),
{
    let player = sidecar_manifest();
    let memory_limit_pages = match player.runtime {
        Runtime::WasmWasi { memory_limit_pages, .. } => memory_limit_pages,
        Runtime::LocalSubprocess { .. } => None,
    };
    let mut rulesets: Vec<AiRulesetEntry> = Vec::new();
    rulesets.push(AiRulesetEntry { ruleset_version: string_from(RULESET_VERSION) });
    let mut args: Vec<String> = Vec::new();
    args.push(string_from(AI_MODULE_ARG));
    AiBundleManifest {
        ai_id: player.ai_id,
        schema_version: string_from(BUNDLE_SCHEMA_VERSION),
        artifact_kind: string_from("ai"),
        game_id: player.protocol.game_id,
        game_version: player.protocol.game_version,
        rulesets,
        runtime: AiBundleRuntime {
            kind: string_from(WASM_WASI_KIND),
            module: string_from(AI_MODULE_FILE),
            args,
            memory_limit_pages,
        },
    }
}

} // verus!
