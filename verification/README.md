# game_client

Verified core of a networked game client.

- `src/networking/connection.rs`: length-prefixed frames (a little-endian
  `u16` length, then the payload), the chat message encoder, and the receive
  buffer that decides, read by read, what is parsed and what is kept.
- `src/game/player.rs`: the two ends of a triple-buffered byte channel.
- `src/game/states/game.rs`: crosshair and debug-overlay layout, the game
  state's reaction to input events, and the corner layout of the debug grid.
- `src/resources/game_state.rs`: network tick pacing.
- `src/renderer/ui/text_box_node.rs`: the text box UI node.
- `app/`: the executable around it: the QUIC stream drivers, the window
  event loop, and the floating-point parts (movement integration, grid
  vertices).
