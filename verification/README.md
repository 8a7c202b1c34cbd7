# midnight-node-updater

A process manager for midnight-node that switches node binaries at chain upgrades.

Nothing on chain tells a node when to swap its binary. An operator registers upgrade
plans; the supervisor watches the node over JSON-RPC and switches binaries once a plan's
trigger, a block height or a runtime `spec_version`, is reached.

## Layout

- `src/` decides. It is written in Verus: every function states what it returns, and that
  is proved. It touches no file, process, socket or clock.
  - `plan`: when an upgrade is due, and which one comes first
  - `supervisor`: the run of the supervisor, the polls, and the steps of an upgrade
  - `config`: settings, from the environment and a TOML file
  - `layout`, `state`, `backup`: what lies where on disk, and what is recorded
  - `download`: URLs, checksums, and the search for a binary in an archive
  - `rpc`: what the node is asked, and what its answers mean
  - `commands`: the other subcommands
  - `json`, `path`, `text`, `time`: plain values
- `app/` does: arguments, files, processes, signals, HTTP, archives and logs.
- `tests/` runs the library.

What is taken on trust stands in the functions and declarations that name an outside crate:
`humantime` (durations and timestamps), `toml` and `serde_json` (documents), `url` (URLs and
queries), `sha2` and `hex` (digests). The comment above each says what is claimed of it.
