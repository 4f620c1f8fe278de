# vm

Runs commands in Parallels VMs against a synced copy of the current repo. One
binary serves as the host's tool and as the agent inside every guest.

- `src/` is the library, written in Verus: what to run, what to say and what to
  refuse. Every function states what it returns, and Verus proves it. Processes,
  files, clocks and variables never appear there; the library is handed what
  they came to.
- `app/` is the program around it: argument parsing, processes, locks, files and
  the platform calls of `a11y-probe`. It performs what the library decides. It
  also parses incoming texts into typed records, so that a complaint about one
  names its place.
- `tests/` runs the library.

## The library

| Module | What it decides |
|---|---|
| `exec` | what a command is, where it runs, and what its outcome means |
| `proto` | the request that a host sends an agent, and the pulse that follows it |
| `sync` | snapshots of a working tree, their verification, and the way back; `sync::model` says what git does with the calls, and what a sync therefore comes to |
| `prl`, `commands` | bringing a VM up, snapshots around a run, the host's verbs |
| `reap`, `idle`, `lock` | when a VM may be shut down |
| `doctor`, `deploy`, `prldnd` | diagnosing and provisioning a guest |
| `journal`, `calendar` | what is kept of a run, and when it happened |
| `config`, `repo_config`, `guest_env`, `mapping` | which VM, which environment, which directory |
| `agent`, `cli` | a coding agent in a guest, and the choices of a command line |
| `probe` | whether a process reaches the accessibility API of its system |
| `ssh`, `exit`, `clock`, `process`, `json`, `ordmap`, `text` | what the others are stated in |

JSON and TOML are read and printed by `serde_json` and `toml`. What those two
read in a text is named in `json`, and every contract that depends on it speaks
of those names.
