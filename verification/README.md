# Vitrail

A local, reversible view of a Linux machine's network traffic: which process talks to
whom, and what it says when the content can be decrypted. Everything Vitrail changes on
the system (an nftables chain, the OpenSnitch daemon's address, `.desktop` overrides, a
local CA in the trust store) is undone by its kill switch, and the teardown is checked
against a snapshot taken before activation.

## Layout

- `src/` — the library, verified with Verus:
  - `killswitch/` — activation and deactivation sequences, snapshots, the teardown check;
  - `correlation/` — the fusion of capture, attribution and decrypted content into flows;
  - `attribution/` — the process cache, the daemon's reconfiguration, application names;
  - `keylog/` — tshark's `-T ek` output, the key file and the launch wrapper injection;
  - `decryption/` — the local CA, PolarProxy and its guard, exclusions, pinning signals;
  - `capture/`, `storage/`, `commands/` — packets, the in-memory store, the journal;
  - `text.rs`, `json.rs`, `paths.rs`, `clock.rs` — the string, JSON, path and time helpers.
- `tests/` — the library's tests.
- `app/` — the command-line program around the library: the system's processes, files and
  privileged helper, and the serialized forms of the library's types.
