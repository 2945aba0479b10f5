# awbrn_client

The board logic of the awbrn game client, written in Verus: what a pointer
gesture, a key press, a replay control or a live-match update decides, and
what the panels report, each stated as a contract over plain values and
proved.

- `src/` is the verified library. Each module owns one concern: pointer
  gestures (`gestures`), the play selection and its orders (`play`,
  `move_path`, `actions`, `reach`, `production`, `keyboard`), unit
  inspection and hover readouts (`inspect`, `hover`), the replay timeline,
  its fog, its moves and its locks (`timeline`, `replay_fog`, `replay_move`,
  `replay_lock`, `projection`), the live match (`live_match`), the player
  roster (`roster`, `live_roster`, `display`), the map editor's decisions
  (`editor`), loading (`loading`), overlays, course arrows and weather.
  Public `lemma_*` proof functions state the properties that span calls.
- `tests/` runs the library on concrete boards.
- `app/` holds what stays outside the proofs: the camera's floating-point
  geometry, tap distances, the serialisable payload copies and the live
  match's wire format.
