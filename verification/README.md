# bootstreep_dashboard

The verified core of a homelab dashboard (a Tauri desktop app that manages a
server locally or over SSH), written in Verus.

`src/` is the library. It decides what each dashboard command runs and where:
a `Task` for the application to carry out, on this machine or as an `ssh`
invocation aimed at the connected host. It reads what the tools print
(`docker`, `systemctl`, `df`, `ps`, `stat`, `/etc/passwd`, the statistics
script) into records, sandboxes paths, keeps the server profiles and the
table of open terminals. Every function there carries a contract that Verus
proves.

- `text` — characters, lines, fields, trimming, decimal numbers
- `shell` — shell quoting (proved to read back as the quoted text), SSH
  targets, command outcomes
- `task` — the connection and the tasks
- `commands` — the commands and the requests they refuse
- `parse`, `files` — reading tool output; the stable order of listings
- `path_sandbox` — remote path checks and the local path sandbox
- `profiles`, `pty` — server profiles, connection, terminal sessions
- `ports`, `stats`, `ids`, `homelab` — port checks, numbers of this machine,
  ids, service records

`app/` is the Tauri shell: it runs processes, touches files, reads the
machine through sysinfo, drives terminals through portable-pty, stores the
profiles as JSON, and does the floating-point arithmetic of percentages.
`tests/` runs the library on concrete inputs.
