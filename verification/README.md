# MIDInet

MIDInet distributes live MIDI from a controller over a network: a host sends,
clients play on virtual devices, a standby host takes over when the primary
fails, and an administration panel watches and configures it all.

- `src/` is the library. It holds the rules: reading and writing MIDI, finding
  and following hosts, failover, focus, settings, alerts, metrics, updates, the
  bridge between a client and its device. Every function has a contract that
  Verus proves, apart from the thin wrappers around `std`, `toml` and `rosc`:
  what those state of the outside code is believed, as their comments say.
- `tests/` runs the library on concrete values.
- `app/` is the program around it: sockets, files, processes, HTTP and the
  drivers of the operating system.

Times are plain integers that the program passes in. Measurements that are not
whole numbers stay in the program, or travel as the bits of their single
precision form.
