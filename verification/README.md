# schrodinger_compute

A small compute platform: an **agent** on each machine reports its resources
(memory, cores, disk, NVIDIA GPUs), starts and stops container sessions with
Docker and bridges terminals into them; a **hub** keeps a registry of agents
fed by their heartbeats, marks silent agents as down, places new sessions on
the eligible agent with the most free memory, and records what runs where.

- `src/` is the library, verified with Verus: text and number handling,
  the registries, scheduling, session bookkeeping, parsing of `nvidia-smi`
  output, disk selection by path, the agent's link to the hub as a state
  machine, and the settings.
- `app/` is the program around it (`app agent` or `app hub`): HTTP routes,
  Docker and PTY processes, system probes, JSON, clocks and timers.
- `tests/` exercises the library on concrete values.
