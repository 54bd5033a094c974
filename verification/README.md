# Pulse Orbit

A macOS menu-bar system monitor. This crate is its verified core, written in
Verus: every function in `src/` carries a contract that Verus proves.

- `src/` — the library: metric payload types (`types`), Apple Silicon core
  topology and memory pressure (`m_series`), counter deltas and baselines
  (`counters`, `name_map`), snapshot pieces shared by history and alerts
  (`snapshot`), alert cooldowns and labels (`alerts`), polling and history
  timing (`schedule`), process termination messages (`processes`), IOKit value
  selection (`iokit`) and sequence helpers (`text`). Laws stand as public
  `proof fn law_*` items.
- `tests/` — tests of the library on concrete values.
- `app/` — the Tauri application around it: `sysctl`, IOKit and `sysinfo`
  reads, SQLite history, commands, notifications, and the floating-point
  arithmetic (CPU percentages, averages, byte rates per second), which the
  library does not hold.
