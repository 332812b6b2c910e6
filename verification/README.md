# hypr-swap

An Alt-Tab style workspace switcher for Hyprland: a daemon that shows an overlay of workspaces,
activates the one picked on the focused monitor, swaps it over from another monitor when it lives
there, rolls a half-applied swap back, and survives compositor restarts.

## Layout

- `src/` — the library, verified with Verus. Everything that decides lives here: the cached
  compositor state and how events update it, the workspace orders, the overlay session's state
  machine, dispatch plans and their rollbacks, the request and event socket protocols, when a
  connection failure stops the daemon and when it retries, where the overlay is placed, the
  configuration's settings and the names of the themes and `[style]` keys, desktop-entry icon
  resolution and the icon set in effect, the command line, and the wording of every diagnostic
  but the `[style]` override reports, which quote colours and sizes worked out in floating
  point and so are worded with the theme in `app/`. Each public function states
  what it returns in its contract; the `law_*` proof functions state what holds across calls.
- `tests/` — ordinary Rust tests run against the compiled library.
- `app/` — the daemon around the library: sockets, Wayland and the event loop, JSON replies,
  configuration file I/O, and the drawing, which works in floating point (the theme, the layout
  metrics, cairo and pango).

The `toml` crate is called from the library behind a trusted wrapper whose contract names what it
returns; the library then reads the settings out of that result with a verified, exact contract.
