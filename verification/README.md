# marble_client

The decision logic of a browser client for a multiplayer marble race, written in Verus and
verified: every public function states in its contract what it returns or changes (results
that depend on what serde_json parses are stated through a named result of the parse), and the
properties that span several calls are proved as `law_*` proof functions.

- `src/` — the verified library, one module per concern (room session, peer tracking, camera
  modes, game phases, standings, reactions, network picture, editor input, …).
- `tests/` — executable tests of the library on concrete values.
- `app/` — plain Rust around the library: floating-point geometry (camera, editor gizmos,
  network picture coordinates), clock conversions and guarded calls.
