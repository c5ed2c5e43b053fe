# dyad

The verified core of an agent-native terminal editor. People at a terminal and agents
over a protocol edit the same buffers by the same rules; the rules are stated as
contracts and proved with Verus.

## Layout

- `src/` — the library. Everything in it is verified.
  - `text`, `scan`, `paths`, `order`: character sequences, scanning, Unix paths, sorting.
  - `rope`, `buffer`, `view`: the text of a buffer, its edits, and a cursor over it.
  - `tx`, `proposals`, `runtime`: transactions, queued edits, and the runtime that owns the
    buffers. `runtime/laws.rs` states what holds across its operations.
  - `protocol`, `mcp`, `json`: the values of the agent protocol, and the server that reads
    requests line by line and answers them.
  - `lsp`: messages to and from language servers, and how they are framed.
  - `syntax`, `hover`, `search`, `git`, `test_runner`, `language`: what is read out of source
    text, repositories and tool output.
  - `app`, `action`, `input`, `tree`, `ui`, `theme`: the editor at the terminal, from keys to
    painted lines.
  - `install`: where the binary is copied to.
- `app/` — the program: the terminal, files, `git`, test commands, and the processes of language
  servers.
- `tests/` — the library on concrete values.

## How the parts work together

The library never waits. Where a key or a request needs a file, a repository or a server, it
returns what it needs (`app::Errand`, `mcp::calls::Effect`), the program fetches it, and
hands the answer to the method that takes it.

Calls into `ropey`, `serde_json`, `tree-sitter` and the standard library that Verus does not
see stand behind small functions; the comment on each says what is believed of it.
