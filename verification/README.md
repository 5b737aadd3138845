# container_runtime

A minimal Linux container runtime (namespaces, cgroups v2, `pivot_root`,
veth/NAT networking, a hardened default security profile), with its decisions
and data verified by Verus.

- `src/` — the verified library: container state and its lifecycle
  (`state`), the OCI `config.json` subset (`config`), namespace flags
  (`namespace`), network names and the `ip`/`iptables` steps as state machines
  (`network`), cgroup limits and statistics parsing (`cgroup`), signals
  (`signal`), security profiles with the seccomp denylist and the BPF filter
  that enforces it (`security`), process-exit bookkeeping
  (`container`, `container_exec`), the text of reports (`report`), and the
  text helpers they share (`text`).
- `app/` — the `crun` program: the command line, files under `/run/crun-rs`,
  JSON, `fork`/`unshare`/`setns`/`mount`, `capset` and installing the seccomp
  filter, and running the commands that the library's network steps ask for.
- `tests/` — tests of the library.
