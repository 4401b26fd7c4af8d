# cursor_cleaner

A terminal tool that browses and cleans the conversation records that Cursor
keeps on the local disk, with its decision logic verified by Verus.

## Layout

- `src/` — the verified library.
  - `text` — character and string helpers (splitting, trimming, ordering, decimal text).
  - `domain`, `error`, `config` — the data model, the errors with their messages, the configuration rules.
  - `platform`, `tools` — path rules per platform and the parsers of `tasklist.exe`, `pgrep` and `lsof` output.
  - `json` — JSON documents as plain values, parsed from stored bytes.
  - `store` — schema verdicts, key ownership, `file://` URIs, titles.
  - `workspace`, `preview`, `catalog` — which workspace a conversation belongs to, its preview, the conversation list.
  - `planning`, `execution` — what a cleanup removes and the order of its steps, with the laws of a cleanup run.
  - `preflight`, `app`, `cli` — the preflight report, the interface state machine and the command line.
- `app/` — the program: terminal, SQLite access, file system work and processes.
- `tests/` — tests of the library.
