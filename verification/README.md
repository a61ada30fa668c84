# sac

A terminal command library: saved shell commands filed in folders, a
browser with fuzzy and exact search, shell integration and remote sync.

- `src/` is the verified library: the store and its rules (`store`), search
  and ranking (`search`, `order`), configuration (`config`), sync decisions
  (`sync`), shell integration planning (`shell`), the browser's state machine
  and view texts (`tui`), the command-line model (`cli`) and the character
  utilities they share (`text`).
- `app/` is the `sac` program around it: argument parsing, TOML files,
  prompts, the network and the terminal.
- `tests/` exercises the library on concrete values.
