# orion_client

The client half of Orion, a personal VPN with a fail-closed kill switch.
The desktop UI is unprivileged; a root helper owns the tunnel and the
nftables kill switch, and the two talk single-line JSON over a Unix socket.

`src/` is a Verus-verified library with the protocol types and every
decision the helper and the UI make:

- `text` — trimming, splitting, `lines`, ASCII case folding, decimal numbers;
- `protocol`, `states` — requests, responses, tunnel states;
- `transport` — the request/reply exchange as a state machine, line framing;
- `profile` — profile names, files, scanning, the sorted profile listing;
- `wgconf` — the tunnel configuration with command hooks (and, without a
  resolver hook, `DNS` lines) removed;
- `killswitch` — endpoints, resolved addresses, the nftables ruleset;
- `status` — the status report and its fail-closed state;
- `connect`, `disconnect`, `identity` — the helper's operations as state
  machines, with the ordering laws (kill switch before tunnel, rollback of a
  failed bring-up, removal on intentional disconnect, NEWNYM only after
  authentication);
- `helper`, `tray` — request dispatch and line handling; the tray model.

`app/` is the `orion-helper` program: it performs the file, process and
socket work the machines ask for, and holds the serde shapes of the wire
types. `tests/` runs the library on concrete inputs.
