# Rustle

A Wordle-style daily word game with team scores, written as a verified
library with Verus.

- `src/` — the verified library: letter feedback (`status`), hard mode
  (`hard_mode`), the New Game+ opponent (`adversary`), word lists and the
  daily solution (`words`), the game session state machine (`game`), share
  text (`share`), comments and messages (`comments`, `messages`), what the
  board shows (`display`), holidays (`holidays`), teams (`teams`), the score
  server's rules (`server`) and text helpers (`text`).
- `tests/` — tests of the library.
- `app/` — the score server (axum, sqlx/SQLite, the daily rollover loop),
  which calls the library, and the browser-side glue (`engine.rs`,
  `ui_api.rs`) for a page to call; the server binary itself does not use it.

The word lists are not built in: a page installs them through
`engine::load_word_lists` before asking for the day's solution.
