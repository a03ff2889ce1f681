# ecopower

A terminal system monitor (CPU, memory, network, processes, disks) whose
logic is a library with proved contracts.

- `src/history.rs`: bounded sample histories (the last 150 samples).
- `src/process.rs`: process rows, the stable sort by CPU or memory, the
  case-insensitive name filter, and reading the nice value from
  `/proc/<pid>/stat` text.
- `src/monitor.rs`: the monitor state, the keyboard state machine and the
  status texts.
- `src/text.rs`: decimal formatting and parsing, white-space splitting,
  substring search.
- `src/layout.rs`: the centred help popup, on ratatui's layout solver.
- `src/laws.rs`: properties of the key handling, the filter, the sort and the
  text functions.
- `app/main.rs`: the terminal program: sampling the system with sysinfo,
  drawing with ratatui, reading keys with crossterm, sending signals and
  running `renice`.
