# skate, verified core

The logic of the skate cluster tool as a Verus library: the cluster configuration, manifest
preparation, the scheduler's plans, node provisioning commands, log and listing commands, and the
node agent's decisions. Every function in `src/` carries a contract that Verus proves; calls into
outside crates (`semver`, `cron`, `shellexpand`, `colored`) go through small trusted wrappers
whose contracts are stated next to them.

- `src/`: the verified library.
- `tests/`: tests that run the library with the real outside crates linked.
- `app/`: the command line around the library (arguments, the configuration file on disk).

Hashes of manifests, the node state gathered over SSH, node choices, the outcomes of remote
calls and the clock are inputs to the library's functions. The command line in `app/` drives
the configuration commands (contexts, clusters, nodes) and the cron conversion; the commands
that work over SSH are not part of it.
