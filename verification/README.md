# dsh_shell

The decisions behind a desktop shell for the `dsh` web service, and behind the
tool that assembles the runtime it is packaged with, written in Verus: each
function states what it returns, and Verus proves it.

- `src/` is the library. It holds no I/O: what it needs of the system comes in as
  plain values, and what is to be done goes out as plain values. Where work and
  decisions alternate (the start of the service, the copying of the dependency
  tree) it is a state machine that names the next action.
  - the shell: `config`, `paths`, `status`, `settings`, `theme`, `session_log`,
    `probe`, `boot`, `process`
  - the assembly: `package`, `resolve`, `tree` and `vendor` with `vendor_laws`,
    `vendor_places` and `vendor_ends`, `archive`, `prune`, `file_tree`, `node_fetch`,
    `assemble`
  - shared: `text`, `json`, `search`
- `tests/` runs the library on concrete values.
- `app/` is the program: windows, processes, sockets, files and downloads. Without
  arguments it is the shell, with `build-runtime` the assembly tool. Its project
  root is the directory above it, with `config.json`, `assets/` and `resources/`.

## Configuration (`config.json`)

| Field         | Default   | Meaning                                            |
| ------------- | --------- | -------------------------------------------------- |
| `port`        | 3090      | port of the service                                |
| `maxWaitMs`   | 90000     | longest wait for the service                       |
| `pollMs`      | 800       | time between two probes                            |
| `nodeVersion` | 24.19.0   | node version that `build-runtime` downloads        |
| `dataHome`    | `~/.dsh`  | user data; `~` is the user's home directory        |

The log of the service is `dsh-service.log` in the data directory.
