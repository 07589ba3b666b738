# local-review

A local code review tool: it shows the diff of a git repository in a browser
or terminal UI, collects line, range, file and overall comments, and exports
them as markdown for an AI coding agent.

## Layout

- `src/` — the verified library (Verus). Every function carries a contract
  proved by Verus:
  - `diff_parser` parses unified diffs (a line state machine with laws on
    the line counts, the line numbering and one file per `diff --git` header);
  - `markdown` renders the review export with code context;
  - `cli`, `mcp`, `config` turn command-line, agent-tool and preference
    inputs into review options;
  - `review` plans the diff range and its mode switches;
  - `server` holds the request checks (CSRF, the file-path guard) and the
    small decisions of the web server;
  - `session`, `file_writer` name session and output files and decide expiry;
  - `tui/` is the terminal UI's state machine, key map, loop decisions,
    themes, glyphs, labels and syntax colour buckets.
- `app/` — the program around the library: argument parsing (clap), git
  access (git2), the axum web server, the MCP server (rmcp), the ratatui
  terminal drawing, and file I/O.
- `tests/` — tests of the library on concrete values.

The outside crates the library calls (sha2, hex, chrono, uuid, syntect) sit
behind small trusted wrappers whose contracts say what their sources show.
