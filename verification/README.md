# wtop

A terminal resource monitor for Windows (CPU, memory, disks, GPU, network,
battery and processes), split into a verified library and the program
around it.

- `src/` is the `wtop` library, verified with Verus: the keyboard state
  machine (`app`), preferences (`config`), CPU tick counts (`cpu`), process
  tracking, filtering and
  stable sorting (`process`), network counters (`network`), battery
  interpretation (`battery`), device names and drive lists (`devices`),
  panel layout and every text the panels show (`panels`, `gauge`, `text`),
  braille chart cells (`braille`), sample histories (`history`), colour
  themes (`theme`), command-line flags (`cli`) and the self-update
  decisions (`updater`). Each public function has a contract; the laws the
  monitor keeps (selection always visible, kill needs confirmation, sorting
  is stable, titles never overflow their border, ...) are public proof
  functions.
- `app/` is the executable: Win32 sampling, the terminal loop and drawing
  with ratatui/crossterm, the config file and release JSON with serde, and
  the HTTP download with ureq. Floating-point percentages and rates are
  computed there.
- `tests/` runs the library on concrete values.
