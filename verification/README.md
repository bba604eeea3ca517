# lanbridge

The core of LanBridge, a primary/secondary folder synchroniser for a trusted
local network, written in Verus: every function in `src/` carries a contract
that Verus proves.

- `src/` — the verified library: what a sync run plans (`planner`, `actions`,
  `run`), what a transfer records (`executor`, `persist`, `transfers`), return
  sync and conflicts (`return_sync`, `conflict`), path safety (`path_rules`,
  `path_safety`, `platform`), history (`history`), pairing and identity
  (`pairing`, `hex`, `digest`), diagnostics (`diagnostics`), the run
  coordinator and watcher trackers (`coordinator`, `watcher`), and the
  per-task commands' rules (`tasks`, `entries`, `network`, `app_settings`),
  and how records are laid out in the state database (`store`, `ids`).
- `tests/` — tests of the library, run against the real outside crates.
- `app/` — the process around the library: start-up, files and directories,
  the SQLite database (rusqlite), filesystem watching (notify), the network
  interfaces (local-ip-address), the settings file, the identity key file,
  and the local service probe.

Outside crates are reached only through small trusted wrappers whose
contracts name what the crate returns (BLAKE3, SHA-256, Ed25519, chrono's
UTC formatting, UUID text, the OS random source, the system clock).
