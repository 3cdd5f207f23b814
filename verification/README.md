# p2pgo_ui

The logic of the P2P Go user interface, written in Verus with every
function proved against its contract.

## Layout

- `src/` — the verified library.
  - `offline_game` — offline 9x9 play: territory and dead-stone marking,
    the agreement phase, scoring; `region` — the flood fill it marks with.
  - `go3d`, `go3d_wireframe` — Go on three intersecting planes.
  - `network_panel`, `network_events`, `screen`, `connection_status`,
    `bootstrap_status` — the network state machine, the reactions to the
    network worker's reports, the screen they lead to, and what the status
    displays say.
  - `lobby`, `enhanced_lobby`, `peer_list` — game and relay listings,
    challenges, ranks and time controls.
  - `error_logger`, `game_activity_logger` — bounded logs and their lines.
  - `clipboard_helper`, `labeled_input` — connection tickets and game codes.
  - `board_widget`, `game_controls`, `heat_map`, `neural_config_ui`,
    `neural_visualization`, `sgf_training_ui` — widget state and texts.
  - `chars`, `text`, `keyed` — text scanning, decimal rendering and keyed
    lists, with their lemmas; `clock`, `random` — the monotonic clock and
    the random generator the library reads.
- `tests/` — tests run against the compiled library.
- `app/` — a console front end: it reads the network worker's reports as
  JSON lines, lets the library decide the reactions, and performs them
  (notifications, requests, log files); lines starting with `:` are
  commands for the offline board, the 3D board, the lobby, the join dialog
  and copying the connection ticket.
