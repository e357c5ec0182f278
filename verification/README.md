# reversi_ai_arena

The Reversi game of the AI arena: the rules engine, the game master that
seats two players and judges their answers, the reference player's search,
the scripted and first-legal fixture players, the transcript exporter and
the JSON-RPC envelope checks. Every function of the library carries a
contract proved by Verus.

## Layout

- `src/` — the verified library.
  - `types.rs` — discs, colours, positions, actions and the states players see.
  - `engine.rs` — the board model, legal placements, flips and the match state
    machine; `engine_laws.rs` states what every move keeps.
  - `gamemaster.rs`, `gm_protocol.rs`, `player_map.rs` — the game master and
    its request, status and snapshot types; `gamemaster_laws.rs` states how a
    failed turn and the disc counts decide the places.
  - `reference.rs` — the reference player's evaluation and minimax search.
  - `script.rs` — move scripts and the fixture strategies.
  - `kifu.rs`, `transcript_laws.rs` — transcripts of runner artifacts.
  - `protocol.rs`, `player_protocol.rs` — JSON-RPC envelopes and metadata.
  - `commands.rs` — method dispatch and argument reading of the programs.
  - `bundle.rs` — the release bundle manifests.
  - `text.rs` — decimal text and string helpers.
- `tests/` — tests of the library.
- `app/` — the programs around it: stdio transport, file reading, serde
  copies of the library's types, and `main`.
