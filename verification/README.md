# rtop

A terminal system monitor: a CPU panel with mirrored load graphs and a box of
per-core bars, a memory graph, and a process list ranked by memory use.

- `src/` is the library, verified with Verus: configuration from the
  environment and the arguments, key handling, bounded metric histories,
  process ranking, text formatting, braille graph cells, the core-box grid,
  the process table and the panel layout. Each public function carries a
  contract; the laws of the library (history windows, interval limits, the
  theme cycle, ranking order, graph symmetry, the core box showing every core
  once) are proof functions beside the code they speak of.
- `app/` is the program around it: terminal setup, the sampling thread
  (sysinfo), colour interpolation on floating-point loads, and drawing with
  ratatui.
- `tests/` runs the library on concrete values.

Keys: `q` or `Esc` quits, `+` (or `=`) and `-` change the sampling interval by 25 ms
(between 50 and 5000 ms), `t` cycles the theme `ocean -> ember -> mono`.
