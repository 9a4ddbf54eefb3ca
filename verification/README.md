# Tsunagu (繋ぐ)

A service and daemon framework whose decisions are verified with Verus.

## Layout

| Place | What it holds |
|-------|---------------|
| `src/` | the verified library: it decides, and changes nothing |
| `app/` | files, processes, signals, JSON and HTTP around it |
| `tests/` | what the library does on given values |

| Module of `src/` | Purpose |
|------------------|---------|
| `daemon` | `DaemonProcess`: the PID file, and who may hold it |
| `socket` | `SocketPath`: XDG-compliant socket and PID file paths |
| `health` | `HealthCheck`: standardized health reports |
| `probe` | how the health endpoints answer |
| `exec`, `exec_laws` | `BoundedRun`: when a child process is given up, and what holds of every run |
| `shutdown` | the drain signal, and how a task waits for it |
| `tracing_init` | logging options, and which filter applies |
| `error` | the unified error type |
| `path`, `text`, `time`, `utf8` | Unix paths, text, spans of time, bytes |

## How it is meant to be used

What was read from a file, a process or the clock goes in as a value; what is to
be written, removed, killed or answered comes out as one. `app/` shows the loop
around each decision. The one thing that the library reads itself is where the
session keeps its runtime files: `SocketPath::session_dir`, `try_runtime_base`,
`runtime_base`, `for_app`, `pid_file` and `DaemonProcess::new` ask the
environment of the process and the platform.

```rust
let daemon = DaemonProcess::with_checker("myapp", pid_path, socket_path, checker);
let contents = std::fs::read_to_string(&path).ok();
let plan = daemon.acquire(contents.as_deref(), std::process::id())?;
// carry out `plan`: remove the stale file, make the directory, write the file
```

## What is stated

Each function states what it returns for every input. The functions called
`law_...` state what holds of several of them together: that reading a PID file
gives back what was written, that a live holder keeps others out, that the
directory is absolute in every environment, that a status survives being written
and read, that a run past its deadline ends, that one making progress is never
taken for quiet.

What is not proved is what other crates and `std` do: the functions marked
`#[verifier::external_body]` call them, and say what is claimed of them.
