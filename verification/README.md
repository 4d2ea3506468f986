# Works After Reinstall

Your Windows setup, rebuilt after every reinstall: capture a machine's applications
(through WinGet), Windows preferences, environment variables and configuration files
into a bundle, and make a fresh machine look like that bundle again.

## Layout

- `src/` is the library, written in Verus. Every function in it carries a contract
  that Verus proves; what it decides is what the program does:
  - `manifest`, `catalog`, `starter`: the bundle manifest and its rules, the built-in
    catalogue and the starter bundle.
  - `winget`: reading `winget export` package lists (one entry per id, first one
    wins, sorted) and writing the file `winget import` reads, grouped by source.
  - `settings`, `envvars`, `utf16`, `vars`, `files`, `paths`: what each component
    captures, writes and reports, down to registry value encodings and path rules;
    restoring the environment is planned in full (lines, writes, broadcast) from a
    snapshot of the registry key. A second identical restore is proved to write
    nothing when the variables are named apart from each other and from `Path`, no
    value ends in a NUL, and the PATH additions are trimmed, non-blank and free of `;`
    and NUL. Restoring files a second time is proved to copy nothing when no two
    entries restore to the same place and none restores over a source.
  - `commands`: the apply order, failure collection and report lines of `setup` and
    `export`.
  - `discovery`, `prompt`: finding a bundle and reading answers typed at a prompt.
  - `tui`: the interactive interface as a state machine from keys, wheel turns and
    job output to the next state and the work to do; `view`: what each of its
    screens shows.
  - `text`, `order`, `clock`: character helpers, string order and ISO 8601 time.
- Variables are kept as a `Vec` of `(name, value)` pairs whose names are unique and
  ascending (`Environment::wf`), and sets as `Vec`s with stated uniqueness: vstd's
  specifications of `BTreeMap` and `BTreeSet` carry nothing about `String` keys into
  proofs, so the sorted-map properties are stated and proved on the `Vec` directly.
- `app/` is the program around it: the command line (clap), YAML files (serde),
  the registry and Win32 calls, file copies, running `winget`, and drawing with
  ratatui. It reads what the library asks for, prints the lines the library returns
  and performs the writes the library plans.
- `tests/` exercises the library from outside.
