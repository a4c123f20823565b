# highlights

Highlights is a Discord bot that notifies you, in direct messages, when a
keyword you added appears in a server you share with it.

This repository holds the bot's logic as a library verified with
[Verus](https://github.com/verus-lang/verus), and the program around it.

## Layout

- `src/` — the verified library. Every function states in `requires` and
  `ensures` what it does, over mathematical models (`Seq`, `Set`, `int`),
  and Verus proves it:
  - `keyword_match`, `highlighting`: whether and where a keyword appears in
    a message;
  - `notifications`: who is notified, retries of a failed send, and what
    happens to sent notifications when a message is edited or deleted;
  - `commands`, `args`, `replies`, `listing`, `reports`: reading command
    input and writing every reply;
  - `backup`: which backups daily cleaning keeps;
  - `settings`, `reporting`: log filtering and error reports;
  - `dashboard`: session cookies and OAuth values;
  - `db`: the stored form of keywords, ignores, mutes, blocks, opt-outs,
    sent notifications and user states.
  Calls into the regex, chrono, base64, url, uuid and rand crates, and into a
  few std functions, go through small trusted wrappers whose doc comments
  say what each contract claims of the outside code.
- `tests/` — tests of the library on concrete values.
- `app/` — the program: settings from `HIGHLIGHTS_*` environment variables,
  logging, the SQLite database, backups, and the Discord client, which hand
  plain values to the library and act on what it returns.

## Running

Settings are read from `config.toml` (or the file named by
`HIGHLIGHTS_CONFIG`), and each can be overridden by an environment
variable such as `HIGHLIGHTS_BOT_TOKEN` for `bot.token`. At least
`bot.token`, `bot.application_id` and `database.path` must be set.
When `logging.prometheus` holds an address, command, query and
notification times are served there to Prometheus.
