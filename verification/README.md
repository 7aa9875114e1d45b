# edged_core

The logic of Edged, a window switcher for macOS, as a library whose behaviour is stated in
`requires` / `ensures` contracts and proved with Verus.

- `src/` is the verified library: the stored settings and keyboard chords, the zones of
  the ring, the modes the held keys ask for, the update check's decisions, the orders the
  panel lists applications and windows in, how the desktop model takes each fresh read
  (`upkeep`, `jobs`), what the window server's answers mean (`listing`, `server`,
  `space`), the menus, the settings window's sections (`pages`), the rows, the window previews' timing and cache, and the panels
  kept one per display. Version numbers are read, ordered and written by the `semver`
  crate behind a few trusted wrappers in `release.rs`.
- `tests/` runs the library on concrete values.
- `app/` holds what the library does not: the loop that keeps the desktop current, with
  macOS behind a trait; the geometry of windows and screens, which is
  measured in floating-point points, the release check's HTTP request and JSON answer, and
  the conversions to the host's durations and the defaults store.

Reading the desktop itself, drawing the panel and calling macOS are left to the host
application.
