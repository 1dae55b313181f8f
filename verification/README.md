# hyprhook

Runs commands when Hyprland windows open, close, gain focus or lose focus.
Each rule matches windows by class and/or title (regular expressions, both
must match); a rule without either matches every window.

- `src/pattern.rs` — a pattern's text together with the regex compiled from it.
- `src/rule.rs` — rules and ordered rule sets.
- `src/state.rs` — the open windows and the focused window, and which
  commands each window event fires.
- `src/hook.rs` — the bounded queue that hands commands to the worker.
- `src/sending.rs` — offering one command to the queue, with a receipt when it is taken.
- `src/config.rs` — the configuration and its compilation into a rule set.
- `app/` — command line, reading the TOML file, the Hyprland event listener
  and the worker that runs the queued commands one at a time.
