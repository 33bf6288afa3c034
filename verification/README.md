# pym2

A small process manager for Python services on Linux: an agent that owns the
processes, and a command line, an interactive screen and a web interface that
talk to it.

- `src/` is the library, verified with Verus. It holds every rule: how a
  configuration is checked, what a process is started with, when an app is
  restarted and when no longer, what a request is answered, what is shown. It
  does nothing outside itself. Where something has to be done outside, it says
  what, and takes what came of it.
- `tests/` runs the library.
- `app/` is the program: it does what the library asks for, with processes,
  files, sockets, the terminal and the clock.

## Modules

| Module | What it holds |
|---|---|
| `text`, `names`, `paths`, `listing` | texts, tables by name, paths, sorted lists |
| `model`, `error` | configuration, runtime state, requests, replies, events, errors |
| `config`, `schedule` | checks and defaults of a configuration, restart schedules |
| `launch`, `signals` | command lines and environments, stop signals |
| `managed` | one app: exits, restarts, delays, the limit on restarts |
| `lifecycle` | starting, stopping and looking after one app, step by step |
| `supervisor` | all apps, jobs on them, lists, logs, persistence |
| `agent`, `ipc`, `web` | requests and replies, events, lines, the web interface |
| `cli`, `tui` | commands and what they print, keys and the screen |

## How a job runs

`Supervisor::start`, `stop`, `restart`, `tick` and the like begin a job and name
the first `Action`. The program performs it and hands the `Reply` to
`Supervisor::step`, which changes what is remembered of the apps and names the
next one, until the action is `Finish`. Every step has an exact contract, so
what holds of the steps holds of every run, whatever the replies are. The proof
functions whose names begin with `law_` state what does.
