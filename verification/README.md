# exobio-rat

A terminal companion for Elite Dangerous exobiology. It follows the game's
journal live, lists the predicted flora of the planets in the current
system, and tracks progress along a route loaded from a spansh/EDSearch
route file.

The decisions are a Verus-verified library; the program around it only
reads the journal, talks to the terminal and renders.

## Layout

- `src/text.rs`: decimal text, `u64` parsing, thousands grouping,
  truncation and padding.
- `src/route.rs`: a loaded route and how arriving in a system ticks off
  its stops.
- `src/ui.rs`: the view's state, what each key does, loading a route and
  arriving on it.
- `src/survey.rs`: plain models of planets and predicted species, which
  entries still count, and the stable order of the planet list.
- `src/screen.rs`: the styled text of each line of the view, the scroll
  position, the popup geometry and the route panel.
- `src/systems.rs`: the systems visited this session fed from journal
  events, the planet models built from them, and one composed frame.
- `src/game.rs`: the `ed-journals`, `ed-state` and `ed-exobiology` types and
  calls the library relies on.
- `src/clipboard.rs`: the OSC 52 sequence (base64) by which the terminal is
  asked to put a system name on the clipboard.
- `src/args.rs`: the command line.
- `app/main.rs`: the program: journal reader thread, terminal, key events,
  ratatui rendering, route files.

## Keys

| Key          | Action                              |
| ------------ | ----------------------------------- |
| `q` / `Esc`  | quit                                |
| `j` / `k`    | scroll the planet list              |
| `v` / `d`    | sort by estimated value / distance  |
| `t`          | set the minimum species value       |
| `r`          | load a route file (path in a popup) |
| `c`          | copy the next route destination     |
