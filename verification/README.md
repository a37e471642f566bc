# linwatch

The verified core of a Linux system-health terminal monitor, written in Verus.

- `src/` — the library, every function proved against its contract:
  - `text` — character-level string operations (trim, pattern search, number parsing and formatting);
  - `interval` — the supported refresh intervals and how an interval text is read;
  - `cli` — command-line options and their errors;
  - `severity` — severity levels and the words that name them;
  - `chart` — accessible chart titles (metric, average, peak);
  - `gpu` — the GPU detail line;
  - `labels` — header and process-tab text lines;
  - `panels` — layout and display decisions of the dashboard panels;
  - `theme` — the Catppuccin Mocha palette.
- `tests/` — tests on concrete values.
- `app/` — the shell: configuration file, process arguments, floating-point readings and ratatui adapters.
