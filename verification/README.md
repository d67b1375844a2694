# augur

A Discord bot that follows Royal Road fictions: a guild administrator subscribes
a channel to a fiction with `>royalroad add <link>`, and every ten minutes the bot
fetches each fiction page again and posts the links of its new chapters.

- `src/` is the verified library (Verus): command parsing, the administrator
  check, the chapter list read off a fiction page, the comparison of chapter
  lists, the announcement texts, and the flows of `add`, `remove`, `check` and
  the periodic update as step functions that say which database query, web
  fetch or message comes next. `src/royalroad/tables.rs` states what those
  steps do to the two tables, and proves what holds across a whole run: a
  second add is refused, remove undoes add, and an update stores each novel's
  fresh chapter list and leaves the subscriptions alone.
- `app/` is the program around it: the Discord gateway and HTTP client
  (twilight), the SQLite database (sqlx) and page fetches (reqwest). It performs
  what the library's steps ask for and hands back the answers.
- `tests/` runs the library on concrete inputs.
