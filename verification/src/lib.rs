//! Reversi rules engine, game-master state machine, transcript tooling and
//! protocol data for the AI arena, with their contracts proved by Verus.

pub mod bundle;
pub mod commands;
pub mod engine;
pub mod engine_laws;
pub mod gamemaster;
pub mod gamemaster_laws;
pub mod gm_protocol;
pub mod kifu;
pub mod player_map;
pub mod player_protocol;
pub mod protocol;
pub mod reference;
pub mod script;
pub mod text;
pub mod transcript_laws;
pub mod types;
