# hostguard

Verifies that mountpoints are still backed by the filesystems an operator
declared, and stops nominated units when the host is genuinely out of memory.

The library under `src/` decides; it touches nothing. The daemon under `app/`
reads the host, asks the library what to do, and does it.

| Module | What it holds |
| --- | --- |
| `mounts` | reading mountinfo, and verdicts on mount expectations |
| `pressure`, `percent` | the memory emergency signal, and comparing percentages by their bits |
| `gate` | conditions must persist before they count |
| `actions` | cooldown per unit, and a budget per rolling window |
| `config` | which configurations are accepted |
| `guardian` | one evaluation of the host, and the steps that follow from it |
| `incident` | incident records and their file names |
| `metrics` | the Prometheus textfile |
| `psi` | the PSI trigger |
| `systemd` | notifications, and what is asked of `systemctl` |
| `daemon` | the command line, and how long to sleep |
| `text` | taking text apart and putting it together |

Contracts are stated over sequences of characters, maps and integers. Public
proof functions state what holds of the library as a whole; most stand in the
modules whose names end in `_laws`.

A few functions of the standard library and of `serde_json` are called behind
contracts that are believed rather than proved. Each says so in its doc comment.
They stand in `text` and `incident`.
