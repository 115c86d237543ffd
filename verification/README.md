# dmeter

A terminal system monitor with Conway's Game of Life as its centrepiece.

- `src/` is the library, verified with Verus: the Game of Life (`gol`), the
  history windows behind the sparklines (`history`), size, rate and uptime
  formatting and the bar and sparkline text (`format`, `text`), the panel
  geometry (`layout`), the key handling and drawing decisions (`ui`), the
  configuration rules (`config`), the plain collected data (`state`), the
  parsers for the text that the operating system hands back (`parse`,
  `memory_info`, `collect`), the cadence of the collector threads
  (`schedule`) and the clock-backed cache (`clock`).
- `app/` is the binary: it reads the machine with sysinfo, NVML or system
  commands, loads the config file, parses the command line and draws with
  ratatui. It calls the library for the integer logic: layout, key
  handling, timing decisions, parsing and formatting. What works on
  floating-point readings (percentages, colours, the GPU figures) stays in
  the binary.
- `tests/` runs the library on concrete values.
