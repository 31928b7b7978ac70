# screenhop

Guarded DDC/CI monitor input switching: one PC with a monitor on two inputs, and a LAN mesh of
PCs that hand a shared monitor to one another. The library in `src/` is verified with Verus; the
program in `app/` is the ordinary Rust around it (hardware access through `ddc-hi`, files,
sockets, threads, mDNS).

## Layout

- `src/` — the verified library.
  - Actuation: `executor` (capability gate, soft-brick guards, bounded write/verify loop),
    `types`, `driver`, `quirks` (layered per-panel facts that can only restrict),
    `calibration` (per-peer confirmed values), `actuator` (pull-to-self).
  - Local app: `local_config`, `local_switcher`, `ui` (the view model and input guards),
    `ui_flow` (the window's startup, events and setup as a state machine), `worker` (what each
    UI command does), `spike` (the guided hardware test as a state machine that writes only
    live-captured values).
  - Identity: `fingerprint` (EDID parsing and the stable monitor id), `collision`, `ddc`.
  - Mesh: `ownership` (last-writer-wins), `lock` (leases), `peers`, `reconcile`,
    `orchestration`, `mesh` (message handling), `runtime`, `discovery`.
  - Security: `crypto` (group key and AEAD frames), `identity` (Ed25519), `pins` (TOFU),
    `replay`, `handshake`, `transport` (framing), `message`.
  - Support: `strmap`, `text`, `persist`, `harness`.
- `tests/` — tests run against the compiled library with the real outside crates.
- `app/` — the host program: `spike`/`list`/`monitors`/`local`/`agent` commands.

Calls into outside crates (`argon2`, `chacha20poly1305`, `ed25519-dalek`, `rand_core`, `sha2`)
are made from `src/` through small trusted wrappers whose contracts name what they compute.

Maps keyed by strings (monitor ids, aliases, per-peer tables) are held in `strmap::StrMap`, a
vector of distinct keys with a `Map` view, rather than in `std`'s `HashMap` or `BTreeMap`: with
`String` keys, not even the length of such a map after one `insert` could be proved from vstd's
specifications, while every operation of the vector-backed map has an exact contract.
