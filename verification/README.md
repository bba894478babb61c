# LyricRail

LyricRail keeps the playing song and its synchronised lyrics visible in a
compact overlay on the Windows taskbar.  This crate holds its logic as a
library verified with Verus, and the desktop plumbing around it.

## Layout

- `src/` — the verified library.
  - `text.rs`: characters, trimming, searching and decimal rendering.
  - `lyrics/`: the timed-line model and its synchronisation with the playback
    position (`mod.rs`), LRC parsing (`lrc.rs`), matching provider records
    against the playing track (`matching.rs`), the lookup cache (`cache.rs`)
    and the decisions of a lookup with the provider (`fetch.rs`).
  - `media/`: the published media state and the media-session worker's
    decisions (`session.rs`), and the media-key controls (`controls.rs`).
  - `taskbar.rs`: where the overlay goes relative to the taskbar.
- `tests/` — tests of the library on concrete values.
- `app/` — the application around the library: Tauri commands and setup,
  the Windows media-session and taskbar calls, HTTP requests to LRCLIB and
  the serialised copies of the published types.

Times inside the library are milliseconds on a monotonic clock chosen by
the caller; durations of provider records are milliseconds too.
