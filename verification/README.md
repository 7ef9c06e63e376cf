# capeit

The verified core of CapeIt, a power and thermal manager for Linux laptops
(CPU clock caps through `cpupower`, GPU clock locks and target temperatures
through `nvidia-smi`, package power limits and TjMax offset through
`intel-undervolt`).

- `src/` is the library, verified with Verus:
  - `daemon`: the requests (`Action`), the answers (`DaemonResponse`), the
    work each request calls for (`Effect`), and `DaemonState::handle`, proved
    equal to the spec function `step`. Every clock, power and offset value
    is held to the safety limits before it reaches the hardware.
  - `config`, `profile`, `named_map`: the configuration, its profiles by name,
    and the system profiles that every configuration is completed with.
  - `laws`: properties across requests, proved over `step`.
  - `hardware`: command arguments, the intel-undervolt configuration lines,
    and the readings of /proc, /sys and `nvidia-smi`.
  - `inxi`: the client's hardware summary from `inxi`'s report.
  - `client`: the client's decisions (uptime text, profile lists, notices,
    manual controls).
  - `text`, `number`, `order`: the string, decimal and ordering operations
    they are built on, each specified the way `str`, `u64` and `Ord` behave.
- `app/` is the daemon program: the socket, the files, the commands, the
  sensor arithmetic in floating point, and the serde forms of the types.
- `tests/` runs the library on concrete values.
