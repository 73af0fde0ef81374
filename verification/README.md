# echomusic_lyrics_winisland

The logic of EchoMusic-Lyrics-WinIsland, a "dynamic island" that shows the lyrics of the
track playing in EchoMusic, written in Verus and proved against its contracts.

## Layout

- `src/` — the verified library.
  - `text.rs` — trimming, comparing and searching text as `str` does it.
  - `json.rs` — the JSON values the lyrics protocol reads.
  - `cover.rs` — checking and decoding Base64 cover art (decoding by the `base64` crate),
    and the proof that the encoder's text reads back.
  - `font.rs` — a font file as the Base64 text the settings page loads.
  - `lyrics.rs` — lyric lines, the line playing at a position, filtered lines, and reading
    a `MusicData` payload.
  - `lyric_filter.rs` — the lyrics filter expression (compiled by the `regex` crate).
  - `media_state.rs` — the player's state and how the connection's events change it.
  - `protocol.rs` — what the plugin's messages ask for, and the messages sent back.
  - `config.rs`, `color.rs` — settings: dock positions, filter scopes, process rules,
    colours, defaults.
  - `island.rs` — the island's decisions: window placement, monitor choice, lyric text
    transitions, hiding, presses, tray menu, scroll state.
  - `updater.rs` — release tags and versions, picking an update, download addresses and the
    update script.
- `tests/` — tests of the library.
- `app/` — the program around it: the WebSocket server, the update download, the
  configuration file, and a terminal view of the island.
