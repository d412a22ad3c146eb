# serverlist_bot

Decision logic of a Discord bot for a server-listing site, verified with Verus,
and the bot itself around it.

- `src/` — the verified library:
  - `text` — character-level string building, byte lengths, prefixes, and the
    replace-all / replace-first operations, specified over `Seq<char>`.
  - `decimal` — decimal text of `u64`/`i64`, `i64` parsing with the error kinds
    of `i64::from_str`, and the bit casts between `u64` and `i64`.
  - `set_field` — the `set` command: permission gate, forced HTTPS, pastebin
    links, per-field rules, invite and invite-channel checks, audit entry.
  - `set_flow` — `set` as a step function from stage and event to the next
    stage and action, with laws over whole runs: nothing is written unless
    the permission gate passed, and every write goes to the command's own
    server.
  - `vote` — the `vote` command: request URL, reminder button id, reply text
    (the response body is read with `serde_json`), and its step function.
  - `toggle` — presses of the reminder button and the subscription decision.
  - `reminders` — `disablevr`, its autocomplete choices, what disabling
    does to a member's list, and the periodic reminder messages.
  - `config`, `info` — configuration paths and the informational replies.
- `app/` — the bot: poise commands, database and HTTP calls, configuration
  files and the reminder loop. The `set` and `vote` commands run the
  library's step functions, performing each action and feeding back its
  outcome.
- `tests/` — tests of the library on concrete values.
