# deskkin

The verified core of the Deskkin desk companion: the desktop host that pairs
with a CoreS3 device over Noise and answers its availability reads, and the
bookkeeping of the device firmware and its renderer.

- `src/` is the library, written in Verus. Every function there states its
  behaviour in `requires`/`ensures` and is proved against it; properties that
  relate several functions stand as public `proof fn`s named `lemma_*`.
  Calls into `snow`, `qoi` and a few std functions go through small trusted
  wrappers whose doc comments say what is assumed of them.
- `tests/` runs the library on concrete values.
- `app/` is the desktop host program around the library: command-line
  handling, the profile and identity stores on disk, and the owner control
  socket.

Modules of the library:

| module | what it holds |
| --- | --- |
| `identity` | peer states and their transitions, hex text, identity record and JSON shape checks, Noise key derivation |
| `pairing` | the accept loop's pairing window: ticks, window opening, connection admission, owner acknowledgements |
| `pairing_protocol` | the pairing exchange after the Noise handshake as step functions for the host responder, the host initiator and the device, with the laws on what gets published |
| `session` | the session write queue and hello negotiation |
| `owner_control` | owner commands, the command table, control framing, the owner's pairing task |
| `profile` | profile names, role roots, bind scopes, the profile store's rules |
| `device` | device benchmark records, digests, dirty-line transfers, published context words |
| `renderer` | frame completions, SAS digits, QOI loop decoding |
| `band_ownership`, `blit`, `background`, `debug_overlay`, `scratch`, `texture_storage` | renderer building blocks |
