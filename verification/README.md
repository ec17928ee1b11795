# jellyfin

The Jellyfin media-server plugin: deployment lifecycle (install, update,
backup, restore), storage drift detection and repair, and server diagnosis
(libraries, transcode health, the self-healing memory guard).

- `src/` is the verified library. It decides and computes; every public
  function carries a contract over `Seq`-based views, and the `law_*` proof
  functions state what holds across calls.
  - `text` — splitting, trimming, de-duplication, joining, decimal rendering.
  - `command` — a host command line as plain values.
  - `lifecycle` — runtimes, release channels and the commands of each
    lifecycle tool.
  - `storage` — the `.mblink` root classifier and the repair decision.
  - `tools` — endpoint resolution, transcode health, the memory-guard state
    machine and its outcome notification.
  - `error` — the refusals and their messages.
- `app/` is the command-line program: it runs the planned commands, talks to
  the server over HTTP, reads the clock and the disk, and prints JSON.
- `tests/` exercise the library on concrete values.
