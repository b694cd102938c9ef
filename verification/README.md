# vfio-sensor-bridge

Sensors of guests as hwmon devices of their host. An agent in the guest reads
temperatures, fans, voltages, currents and power and sends them over a
virtio-serial channel; a daemon on the host shows them through a kernel module;
a tool attaches the channel and shows the state.

- `src/` is the library, verified with Verus: the messages and their frames
  (`protocol`), what the agent decides (`agent`), what the daemon decides
  (`host`), and what the tool decides (`ctl`). The other modules hold what
  these share: texts, numbers, paths, encodings, sorting, maps and time.
- `tests/` runs the library on concrete values.
- `app/` is the program: files, sockets, processes, ioctls, JSON and TOML. Under
  the names `hostd` and `vsbctl` it is the daemon and the tool, otherwise the
  agent.
