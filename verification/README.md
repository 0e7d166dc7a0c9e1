# IceSickle: attestation console and verifier

A device that attests to a press of its trigger prints what it does over serial.
A host takes that log and checks the attestation in it. This crate holds the
logic of both, verified with Verus.

- `src/` is the verified library.
  - `attestation`, `gate`, `checks`: what a verifier reads in a log and what it
    makes of it. `hex`, `text`, `decimal`, `error` serve them.
  - `ed25519`: the two calls into `ed25519-dalek`, and what is taken on trust
    about them.
  - `device`, `console`: what the device decides and every line that it prints.
  - `run`, `quiet`, `readback`, `session`: laws over whole runs of the device and
    over the logs that they leave.
- `tests/` runs the library, with real signatures.
- `app/` is the firmware around it: pins, bus, clock, entropy source.
