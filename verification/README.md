# mtop

A terminal resource cost monitor that puts a dollar value on CPU, RAM and power use.

- `src/` is the verified library: CPU price and power estimates from the model name
  (`estimate`), counting network connections per process from `lsof` output
  (`connections`), ranking processes by cost (`ranking`), the stress test's load and
  timing (`stress`), the daily price refresh (`prices`), key handling and scrolling
  (`controls`), panel sizes (`layout`), sparklines (`sparkline`), sample histories
  (`history`) and string helpers (`text`).
- `app/` is the terminal program: it reads the system, files and network, computes
  the floating-point costs, draws with ratatui, and asks the library for every
  decision above.
- `tests/` runs the library on concrete inputs.
