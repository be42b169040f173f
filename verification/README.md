# granite_cli

A command-line adapter that catalogs Granite models, model-serving providers,
capabilities and agent launchers, keeps the user's configuration of each, and
wires a configured model into a launcher. The library under `src/` is written
in Verus and its functions carry contracts that Verus proves. A few small
functions are trusted rather than proved: in `src/text.rs`, `push_char` and
`to_lowercase` call std's `String::push` and `str::to_lowercase`; in
`src/capabilities/vision_mcp.rs`, `base64_encode`, `base64_decode` and
`parse_url` call the base64 and url crates and name what those return.

Layout:

- `src/registry`, `src/models`, `src/providers`, `src/capabilities`,
  `src/launchers`: the catalogs and what each entry describes; how a
  capability binds a configured model into a launcher; each launcher's
  environment overlay and generated configuration; images for a vision
  model (`capabilities/vision_mcp.rs`).
- `src/config`: the configuration model, where its files live, shell
  detection and the managed export section of a shell profile.
- `src/commands`: the tables and details the commands show, discovery of
  unconfigured components and the automatic selection, the decisions of the
  setup flows (`setup_config.rs`, `configure.rs`, `provider.rs`), and the
  chat loop as a state machine (`chat.rs`).
- `src/providers/chat.rs`: where chat requests go, their headers and
  bodies, and the reply handling of the chat providers' wire formats,
  including streamed events.
- `src/proxy`: line framing of the usage-tracking proxy.
- `src/di`: dependency graphs of capabilities and dependency resolution.
- `src/json.rs`, `src/strmap.rs`, `src/text.rs`: JSON values, string-keyed
  maps and the text operations the rest is written with.
- `app/`: the executable: argument parsing, reading and writing the YAML
  files, HTTP health checks, prompts and printing.
- `tests/`: tests of the library, run with the outside crates linked.
