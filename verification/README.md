# prompt_board

A prompt manager's core, verified with Verus: prompt templates whose
variables are written `[name]` or `[name|default]`, and the state of a floating prompt board that
searches prompts, fills a template's variables and copies the result.

- `src/text.rs` — whitespace and trimming, specified over characters.
- `src/template.rs` — finding a template's variables (through the `regex`
  crate) and rendering a template with values.
- `src/template_laws.rs` — variables are distinct, well-formed names; with
  no value filled in a template renders as itself; a placeholder that no
  value fills stays as written; filling every variable leaves no variable.
- `src/values.rs` — the values last typed for each variable name.
- `src/prompt.rs` — prompts, drafts, the search pattern, the example prompts.
- `src/board.rs` — the board: each key, click, focus change or search result
  moves it to its next state and names the action the window performs.
- `src/board_laws.rs` — what every run of the board keeps.
- `app/` — the egui window, the SQLite store, the global hotkey and the
  clipboard, which carry out the board's actions.
