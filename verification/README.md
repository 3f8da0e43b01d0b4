# tray-icon (OpenHarmony status bar)

Tray icon support for the OpenHarmony status bar, with its logic verified
by Verus.

- `src/` — the verified library:
  - `icon.rs`: RGBA rasters, nearest-neighbour scaling, template silhouettes,
    status-bar icon data;
  - `float32.rs`: single-precision rounding done in integers, for the
    scaler's sample coordinates;
  - `decode.rs`: menu-item icons (base64 PNG → RGBA);
  - `menu.rs`, `menu_state.rs`: menu entries, their conversion into
    status-bar groups, check-state patching;
  - `metadata.rs`: string-keyed maps and the menu metadata;
  - `event.rs`: tray ids, menu-code translation, click resolution;
  - `tray.rs`: the tray's state and the status-bar requests it calls for;
  - `text.rs`: string helpers.
- `app/` — the platform glue: application handle, process-wide state, JSON
  parsing with serde, the status-bar calls and the event thread.
- `tests/` — runtime tests of the library.
