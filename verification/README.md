# bitvanes-cli

Terminal ETL tool for BitVanes: chunks documents for retrieval pipelines, in a
headless batch mode and an interactive terminal UI.

`src/` is the verified library (Verus):

- `text`, `hashing`, `paths` — string operations, BLAKE3 content hashes in hex,
  and the `std::path` operations the tool relies on.
- `config` — formats, tokenizers, PII patterns, and how command-line flags are laid
  over a base configuration.
- `format` — the format a file is parsed with (an explicit `--format`, otherwise
  the one its extension names), the extensions a directory walk keeps, and the
  writer an output path selects.
- `manifest` — the idempotency manifest and the admit/skip decisions of a run,
  file by file and over a whole run.
- `chunks` — gathering per-file results, sequential chunk numbering, JSON rows with
  deduplication hashes.
- `listing`, `tui`, `tui_laws`, `display` — the file browser's ordering, the UI as
  a state machine (state and key to next state and requested work), its laws, and
  the text it shows.
- `batch` — path deduplication, per-file configuration, launch decisions.

`app/` is the program around it: command-line parsing, file and terminal I/O, the
worker thread, the pipeline engine (`bitvanes_core`), Arrow/CSV/JSON writers and
rendering.
