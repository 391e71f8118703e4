# sndwrks_hud

The logic of an OSC-driven heads-up display, verified with Verus.

`src/` is the library:

- `color` — when a text is a color (`#rgb`, `#rrggbb`, or a named color in any case).
- `osc` — OSC messages and packets as the display reads them, and which display
  event each asks for (`parse_osc_message`, `handle_packet`).
- `datagram` — a received UDP datagram decoded by `rosc` and turned into events.
- `event` — the display events.
- `float_cast` — `f32 as u32` computed from the float's bit pattern (font sizes).
- `f32_bits` — `as f32` for ints and doubles, and `f32` equality, on bit patterns
  (durations).
- `config` — the settings, their defaults, and how saves from the settings form,
  window moves and resizes change them.

`app/` is the Tauri program around it: windows, menus, the UDP listener, the
settings file and the JSON forms of settings and events.
