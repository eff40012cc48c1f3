# Jottrace

Jottrace preserves local AI coding-session transcripts (JSONL session files,
chat JSON files and SQLite session stores) in a private SQLite journal, lets you
browse it locally, and distils "taste" examples from what an agent proposed and
what the user kept.

## Layout

- `src/` is the library, written in Verus. Every public function carries a
  contract, and all but a few are proved. The exceptions are the small
  wrappers marked `#[verifier::external_body]` that call zstd, serde_json and
  std text conversions: their contracts are trusted, not proved, and each one's
  doc comment says what it claims of the call. The library holds the logic of
  the program: session identity and incremental-import decisions, payload
  codecs, the JSON payloads and metadata built from store rows, ingest-error
  bookkeeping, the command line, the reports, the web pages and their links,
  archive checks, self-update decisions, and the taste pipeline (decoding and
  parsing lines, merging streams, file timelines, labelling, export). The
  `pub proof fn lemma_*` items state the laws the library keeps across calls.
- `tests/` exercises the library on concrete values.
- `app/` is the program around the library: `main`, file-system and network
  I/O, SQLite through `rusqlite`, transcript headers decoded through `serde`
  derives, the reading of floating-point store columns into JSON numbers,
  locks through `libc`, and the loops that carry out the library's decisions.

The binary embeds the journal's schema migrations from
`extras/migrations/NNN_*.sql` (see `app/migrations.rs`); those SQL files must
be present to build it.
