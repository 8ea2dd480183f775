# bloomin8_desktop

The decision logic of a desktop controller for the Bloomin8 colour e-ink
Canvas, verified with Verus. The Canvas is driven over its LAN HTTP protocol:
photos and rendered widgets (crypto prices, weather, a countdown) are pushed
to it, its galleries and playlists are managed, and recurring pushes run on a
local cron schedule.

## Layout

- `src/` — the verified library. Every function carries a contract that
  Verus proves; calls into `chrono`, `base64`, `serde_json`, `uuid` and std
  go through a small number of trusted wrappers whose contracts restate the
  outside behaviour.
  - `config`, `commands`, `launch`: which device a command or schedule
    talks to, base URLs, safe path names, push geometry, start-up modes.
  - `device`: the device protocol's messages, errors and the client's
    decisions (upload naming, display verification, cleanup selection,
    polling steps, BLE target choice).
  - `scheduler`, `tray`, `last_push`, `library`: overlap prevention and the
    single retry of scheduled runs, run history, the tray menu, the last
    push per device, and the local image library.
  - `widgets`: placeholder templating and the crypto, weather and countdown
    pages.
  - `datetime`, `encoding`, `text`: dates, base64 and `data:` URLs, and
    character-level string helpers.
- `tests/` — tests of the library's public functions.
- `app/` — the unverified shell: files in the data directory, HTTP, photo
  scaling (floating point), widget data fetching and the async scheduler
  loop.
