# snsx

The verified core of the SNSX language tools: the task, actor, heap and
sandbox runtime; the SNSP wire formats, handshake and secure channel; the
drawing canvas and the text layout of documents; the studio's editor
buffers, console, key handling, panels and screen frame; the workspace
shell's command language, paths, listings, reports and package plans; the
bytecode machine's builtins on text; and the web studio's request heads,
routes, token check and pages.

Layout:

- `src/` — the library, verified with Verus. Each public function states in
  its contract what it returns; the proof functions named `lemma_*` state
  the laws that relate several operations (round trips of the wire formats,
  undoing edits, heap accounting, sorted listings, paths that stay inside
  the workspace, dependencies recorded by installs).
- `tests/` — tests of the library on concrete values.
- `app/` — the programs around the library: the terminal studio, the web
  studio, the live preview, the file system side of the shell commands,
  `snsx.toml` reading and writing, the UDP transport, and serializable
  forms of the drawing types.

Calls into `sha3`, `ed25519-dalek`, `x25519-dalek`, `aes-gcm-siv`, `base64`
and `toml` stand behind small trusted wrappers in `src/crypto.rs` and
`src/manifest.rs`, each documented with what it assumes of the crate. A few
functions of std that vstd gives no contract stand behind wrappers too:
`String::push` and `str::to_lowercase` in `src/text.rs`, and
`String::from_utf8` in `src/network.rs`. The manifest is read and written
by `toml` behind two wrappers in `src/manifest.rs`; the default manifest,
the changes the package commands make and the lists read from it are
verified there.
