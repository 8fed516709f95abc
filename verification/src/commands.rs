//! The commands of the dashboard: which outside work each one asks for, on
//! this machine or on the remote host, and which requests it refuses.
use vstd::prelude::*;
use crate::shell::{shell_escape, shell_escaped};
use crate::task::{
    lit, remote_task, run_on_target, run_script, run_ssh, script_task, ssh_args, ssh_argv,
    target_task, Connection, LocalShell, Task, TaskView,
};
use crate::path_sandbox::{access_answer, check_access, probe_of, PathProbe};
use crate::text::{decimal, decimal_string, escape_quotes, escape_quotes_str, str_eq};

verus! {

broadcast use vstd::string::group_string_axioms;

// ─── Docker ─────────────────────────────────────────────────────────────────

/// The Go template that lists containers, one tab-separated line each.
pub const DOCKER_PS_FORMAT: &'static str = "{{.ID}}\t{{.Names}}\t{{.Image}}\t{{.Status}}\t{{.State}}\t{{.Ports}}\t{{.CreatedAt}}";

/// The Go template that lists container resource use.
pub const DOCKER_STATS_FORMAT: &'static str = "{{.Name}}\t{{.CPUPerc}}\t{{.MemUsage}}\t{{.MemPerc}}\t{{.NetIO}}\t{{.BlockIO}}\t{{.PIDs}}";

/// `prefix` followed by `'text'` with the quotes inside `text` escaped.
pub open spec fn with_quoted(prefix: Seq<char>, text: Seq<char>) -> Seq<char> {
    prefix + seq!['\''] + escape_quotes(text) + seq!['\'']
}

fn quoted_after(prefix: &str, text: &str) -> (r: String)
    ensures
        r@ == with_quoted(prefix@, text@),
{
    let mut r = lit(prefix);
    r.append("'");
    let e = escape_quotes_str(text);
    r.append(e.as_str());
    r.append("'");
    proof {
        reveal_strlit("'");
    }
    assert(r@ =~= with_quoted(prefix@, text@));
    r
}

/// Lists all containers.
pub fn docker_list(conn: &Connection) -> (t: Task)
    ensures
        t@ == target_task(
            conn,
            "docker"@,
            seq!["ps"@, "-a"@, "--format"@, DOCKER_PS_FORMAT@],
            with_quoted("docker ps -a --format "@, DOCKER_PS_FORMAT@),
        ),
{
    let remote_cmd = quoted_after("docker ps -a --format ", DOCKER_PS_FORMAT);
    let mut args: Vec<String> = Vec::new();
    args.push(lit("ps"));
    args.push(lit("-a"));
    args.push(lit("--format"));
    args.push(lit(DOCKER_PS_FORMAT));
    assert(args.deep_view() =~= seq!["ps"@, "-a"@, "--format"@, DOCKER_PS_FORMAT@]);
    run_on_target(conn, "docker", args, remote_cmd)
}

/// Lists resource use of the running containers, once.
pub fn docker_stats(conn: &Connection) -> (t: Task)
    ensures
        t@ == target_task(
            conn,
            "docker"@,
            seq!["stats"@, "--no-stream"@, "--format"@, DOCKER_STATS_FORMAT@],
            with_quoted("docker stats --no-stream --format "@, DOCKER_STATS_FORMAT@),
        ),
{
    let remote_cmd = quoted_after("docker stats --no-stream --format ", DOCKER_STATS_FORMAT);
    let mut args: Vec<String> = Vec::new();
    args.push(lit("stats"));
    args.push(lit("--no-stream"));
    args.push(lit("--format"));
    args.push(lit(DOCKER_STATS_FORMAT));
    assert(args.deep_view() =~= seq!["stats"@, "--no-stream"@, "--format"@, DOCKER_STATS_FORMAT@]);
    run_on_target(conn, "docker", args, remote_cmd)
}

/// The container actions that `docker_action` accepts.
pub open spec fn docker_actions() -> Seq<Seq<char>> {
    seq!["start"@, "stop"@, "restart"@, "remove"@, "pause"@, "unpause"@]
}

/// `a b` with one space between.
pub open spec fn spaced(a: Seq<char>, b: Seq<char>) -> Seq<char> {
    a + seq![' '] + b
}

/// `prefix` followed directly by `name` shell-quoted.
pub open spec fn with_word(prefix: Seq<char>, name: Seq<char>) -> Seq<char> {
    prefix + shell_escaped(name)
}

fn append_escaped(s: &mut String, word: &str)
    ensures
        final(s)@ == old(s)@ + shell_escaped(word@),
{
    let e = shell_escape(word);
    s.append(e.as_str());
}

fn append_text(s: &mut String, t: &str)
    ensures
        final(s)@ == old(s)@ + t@,
{
    s.append(t);
}

/// Starts, stops, restarts, removes, pauses or unpauses a container;
/// refuses any other action.
pub fn docker_action(conn: &Connection, action: &str, name: &str) -> (r: Result<Task, String>)
    ensures
        match r {
            Ok(t) => docker_actions().contains(action@) && t@ == target_task(
                conn,
                "docker"@,
                seq![action@, name@],
                spaced("docker"@, spaced(action@, shell_escaped(name@))),
            ),
            Err(e) => !docker_actions().contains(action@) && e@ == "Invalid action"@,
        },
{
    if !(str_eq(action, "start") || str_eq(action, "stop") || str_eq(action, "restart")
        || str_eq(action, "remove") || str_eq(action, "pause") || str_eq(action, "unpause")) {
        assert(!docker_actions().contains(action@)) by {
            if docker_actions().contains(action@) {
                let k = choose|k: int| 0 <= k < 6 && docker_actions()[k] == action@;
            }
        }
        return Err(lit("Invalid action"));
    }
    let mut cmd = lit("docker ");
    append_text(&mut cmd, action);
    append_text(&mut cmd, " ");
    append_escaped(&mut cmd, name);
    proof {
        reveal_strlit("docker ");
        reveal_strlit("docker");
        reveal_strlit(" ");
    }
    assert(cmd@ =~= spaced("docker"@, spaced(action@, shell_escaped(name@))));
    let mut args: Vec<String> = Vec::new();
    args.push(lit(action));
    args.push(lit(name));
    assert(args.deep_view() =~= seq![action@, name@]);
    assert(docker_actions().contains(action@)) by {
        if action@ == "start"@ { assert(docker_actions()[0] == action@); }
        else if action@ == "stop"@ { assert(docker_actions()[1] == action@); }
        else if action@ == "restart"@ { assert(docker_actions()[2] == action@); }
        else if action@ == "remove"@ { assert(docker_actions()[3] == action@); }
        else if action@ == "pause"@ { assert(docker_actions()[4] == action@); }
        else { assert(docker_actions()[5] == action@); }
    }
    Ok(run_on_target(conn, "docker", args, cmd))
}


/// The number of log lines that `docker_logs` shows when none is asked for.
pub open spec fn log_lines(lines: Option<u32>) -> nat {
    match lines {
        Some(n) => n as nat,
        None => 100,
    }
}

/// Shows the last lines of a container's log (100 unless asked otherwise).
pub fn docker_logs(conn: &Connection, name: &str, lines: Option<u32>) -> (t: Task)
    ensures
        t@ == target_task(
            conn,
            "docker"@,
            seq!["logs"@, "--tail"@, decimal(log_lines(lines)), name@],
            "docker logs --tail "@ + decimal(log_lines(lines)) + seq![' '] + shell_escaped(name@)
                + " 2>&1"@,
        ),
{
    let n: u32 = match lines {
        Some(n) => n,
        None => 100,
    };
    let count = decimal_string(n as u64);
    let mut cmd = lit("docker logs --tail ");
    append_text(&mut cmd, count.as_str());
    append_text(&mut cmd, " ");
    append_escaped(&mut cmd, name);
    append_text(&mut cmd, " 2>&1");
    proof {
        reveal_strlit(" ");
    }
    let mut args: Vec<String> = Vec::new();
    args.push(lit("logs"));
    args.push(lit("--tail"));
    args.push(count);
    args.push(lit(name));
    assert(args.deep_view() =~= seq!["logs"@, "--tail"@, decimal(log_lines(lines)), name@]);
    assert(cmd@ =~= "docker logs --tail "@ + decimal(log_lines(lines)) + seq![' '] + shell_escaped(
        name@,
    ) + " 2>&1"@);
    run_on_target(conn, "docker", args, cmd)
}

/// Runs a shell command line inside a container.
pub fn docker_exec(conn: &Connection, name: &str, command: &str) -> (t: Task)
    ensures
        t@ == target_task(
            conn,
            "docker"@,
            seq!["exec"@, name@, "sh"@, "-c"@, command@],
            "docker exec "@ + shell_escaped(name@) + " sh -c "@ + shell_escaped(command@),
        ),
{
    let mut cmd = lit("docker exec ");
    append_escaped(&mut cmd, name);
    append_text(&mut cmd, " sh -c ");
    append_escaped(&mut cmd, command);
    let mut args: Vec<String> = Vec::new();
    args.push(lit("exec"));
    args.push(lit(name));
    args.push(lit("sh"));
    args.push(lit("-c"));
    args.push(lit(command));
    assert(args.deep_view() =~= seq!["exec"@, name@, "sh"@, "-c"@, command@]);
    assert(cmd@ =~= "docker exec "@ + shell_escaped(name@) + " sh -c "@ + shell_escaped(command@));
    run_on_target(conn, "docker", args, cmd)
}

// ─── systemd services ───────────────────────────────────────────────────────

/// The command line that lists all service units, plain.
pub const SERVICE_LIST_COMMAND: &'static str = "systemctl list-units --type=service --all --no-pager --no-legend --plain --no-ansi";

/// The arguments of `systemctl` for listing service units.
pub open spec fn service_list_args() -> Seq<Seq<char>> {
    seq![
        "list-units"@,
        "--type=service"@,
        "--all"@,
        "--no-pager"@,
        "--no-legend"@,
        "--plain"@,
        "--no-ansi"@,
    ]
}

/// Lists all service units.
pub fn service_list(conn: &Connection) -> (t: Task)
    ensures
        t@ == target_task(conn, "systemctl"@, service_list_args(), SERVICE_LIST_COMMAND@),
{
    let mut args: Vec<String> = Vec::new();
    args.push(lit("list-units"));
    args.push(lit("--type=service"));
    args.push(lit("--all"));
    args.push(lit("--no-pager"));
    args.push(lit("--no-legend"));
    args.push(lit("--plain"));
    args.push(lit("--no-ansi"));
    assert(args.deep_view() =~= service_list_args());
    run_on_target(conn, "systemctl", args, lit(SERVICE_LIST_COMMAND))
}

/// The service actions that `service_action` accepts.
pub open spec fn service_actions() -> Seq<Seq<char>> {
    seq!["start"@, "stop"@, "restart"@, "enable"@, "disable"@]
}

/// Starts, stops, restarts, enables or disables a service (with `sudo` on
/// the remote host); refuses any other action.
pub fn service_action(conn: &Connection, action: &str, name: &str) -> (r: Result<Task, String>)
    ensures
        match r {
            Ok(t) => service_actions().contains(action@) && t@ == target_task(
                conn,
                "systemctl"@,
                seq![action@, name@],
                "sudo systemctl "@ + action@ + seq![' '] + shell_escaped(name@),
            ),
            Err(e) => !service_actions().contains(action@) && e@ == "Invalid action"@,
        },
{
    if !(str_eq(action, "start") || str_eq(action, "stop") || str_eq(action, "restart")
        || str_eq(action, "enable") || str_eq(action, "disable")) {
        assert(!service_actions().contains(action@)) by {
            if service_actions().contains(action@) {
                let k = choose|k: int| 0 <= k < 5 && service_actions()[k] == action@;
            }
        }
        return Err(lit("Invalid action"));
    }
    assert(service_actions().contains(action@)) by {
        if action@ == "start"@ { assert(service_actions()[0] == action@); }
        else if action@ == "stop"@ { assert(service_actions()[1] == action@); }
        else if action@ == "restart"@ { assert(service_actions()[2] == action@); }
        else if action@ == "enable"@ { assert(service_actions()[3] == action@); }
        else { assert(service_actions()[4] == action@); }
    }
    let mut cmd = lit("sudo systemctl ");
    append_text(&mut cmd, action);
    append_text(&mut cmd, " ");
    append_escaped(&mut cmd, name);
    proof {
        reveal_strlit(" ");
    }
    assert(cmd@ =~= "sudo systemctl "@ + action@ + seq![' '] + shell_escaped(name@));
    let mut args: Vec<String> = Vec::new();
    args.push(lit(action));
    args.push(lit(name));
    assert(args.deep_view() =~= seq![action@, name@]);
    Ok(run_on_target(conn, "systemctl", args, cmd))
}

// ─── Terminal ───────────────────────────────────────────────────────────────

/// Runs a command line: through a login `bash` on the remote host, else
/// through this machine's shell.
pub fn run_command(conn: &Connection, command: &str, shell: LocalShell) -> (t: Task)
    ensures
        t@ == if conn.remote() {
            remote_task(conn, "bash -lc "@ + shell_escaped(command@))
        } else {
            script_task(conn, shell, command@)
        },
{
    if conn.is_remote() {
        let mut cmd = lit("bash -lc ");
        append_escaped(&mut cmd, command);
        run_ssh(conn, cmd)
    } else {
        run_script(conn, shell, lit(command))
    }
}

// ─── Files ──────────────────────────────────────────────────────────────────

/// The listing script before the first use of the directory.
pub const LIST_SCRIPT_HEAD: &'static str = "for f in ";

/// The listing script between the two uses of the directory.
pub const LIST_SCRIPT_MIDDLE: &'static str = "/*; do [ -e \"$f\" ] || continue; stat --format='%n|%F|%s|%y|%A' -- \"$f\" 2>/dev/null; done; for f in ";

/// The listing script after the second use of the directory.
pub const LIST_SCRIPT_TAIL: &'static str = "/.*; do b=$(basename \"$f\"); [ \"$b\" = \".\" ] || [ \"$b\" = \"..\" ] && continue; [ -e \"$f\" ] || continue; stat --format='%n|%F|%s|%y|%A' -- \"$f\" 2>/dev/null; done";

/// The remote script that prints one `name|type|size|modified|mode` line per
/// entry of a directory, hidden ones included.
pub open spec fn list_script(dir: Seq<char>) -> Seq<char> {
    LIST_SCRIPT_HEAD@ + shell_escaped(dir) + LIST_SCRIPT_MIDDLE@ + shell_escaped(dir)
        + LIST_SCRIPT_TAIL@
}

/// The answer of a local file command: its task where the sandbox lets it
/// touch `path`, else the sandbox's refusal.
pub open spec fn gated(
    path: Seq<char>,
    prefixes: &Vec<String>,
    probe: Option<PathProbe>,
    may_create: bool,
    t: TaskView,
) -> Result<TaskView, Seq<char>> {
    match access_answer(path, prefixes.deep_view(), probe_of(probe), may_create) {
        Ok(_) => Ok(t),
        Err(e) => Err(e),
    }
}

/// `r` is the answer `want`.
pub open spec fn answers(r: Result<Task, String>, want: Result<TaskView, Seq<char>>) -> bool {
    match want {
        Ok(t) => r matches Ok(x) && x@ == t,
        Err(e) => r matches Err(x) && x@ == e,
    }
}

fn gate(path: &str, prefixes: &Vec<String>, probe: Option<PathProbe>, may_create: bool, t: Task) -> (r: Result<Task, String>)
    ensures
        answers(r, gated(path@, prefixes, probe, may_create, t@)),
{
    match check_access(path, prefixes, probe, may_create) {
        Ok(_) => Ok(t),
        Err(e) => Err(e),
    }
}

/// Lists a directory: by `stat` on the remote host, else locally where the
/// sandbox allows the directory (`probe` is what the application found at
/// `path`, `prefixes` the allowed directories).
pub fn file_list(conn: &Connection, path: &str, prefixes: &Vec<String>, probe: Option<PathProbe>) -> (r: Result<Task, String>)
    ensures
        answers(r, if conn.remote() {
            Ok(remote_task(conn, list_script(path@)))
        } else {
            gated(path@, prefixes, probe, false, TaskView::ListDir { path: path@ })
        }),
{
    if conn.is_remote() {
        let mut script = lit(LIST_SCRIPT_HEAD);
        append_escaped(&mut script, path);
        append_text(&mut script, LIST_SCRIPT_MIDDLE);
        append_escaped(&mut script, path);
        append_text(&mut script, LIST_SCRIPT_TAIL);
        Ok(run_ssh(conn, script))
    } else {
        gate(path, prefixes, probe, false, Task::ListDir { path: lit(path) })
    }
}

/// Reads a file: `cat` on the remote host, else locally where the sandbox
/// allows it.
pub fn file_read(conn: &Connection, path: &str, prefixes: &Vec<String>, probe: Option<PathProbe>) -> (r: Result<Task, String>)
    ensures
        answers(r, if conn.remote() {
            Ok(remote_task(conn, "cat -- "@ + shell_escaped(path@)))
        } else {
            gated(path@, prefixes, probe, false, TaskView::ReadFile { path: path@ })
        }),
{
    if conn.is_remote() {
        let mut cmd = lit("cat -- ");
        append_escaped(&mut cmd, path);
        Ok(run_ssh(conn, cmd))
    } else {
        gate(path, prefixes, probe, false, Task::ReadFile { path: lit(path) })
    }
}

/// Writes a file: `cat >` fed the content on the remote host, else locally
/// where the sandbox allows it (a new file below an allowed directory too).
pub fn file_write(conn: &Connection, path: &str, content: &str, prefixes: &Vec<String>, probe: Option<PathProbe>) -> (r: Result<Task, String>)
    ensures
        answers(r, if conn.remote() {
            Ok(TaskView::SshWithInput {
                args: ssh_argv(conn.target(), "cat > "@ + shell_escaped(path@)),
                input: content@,
            })
        } else {
            gated(path@, prefixes, probe, true, TaskView::WriteFile { path: path@, content: content@ })
        }),
{
    if conn.is_remote() {
        let mut cmd = lit("cat > ");
        append_escaped(&mut cmd, path);
        Ok(Task::SshWithInput { args: ssh_args(conn, cmd), input: lit(content) })
    } else {
        gate(path, prefixes, probe, true, Task::WriteFile { path: lit(path), content: lit(content) })
    }
}

/// Deletes a file or a directory tree, locally only where the sandbox
/// allows it.
pub fn file_delete(conn: &Connection, path: &str, prefixes: &Vec<String>, probe: Option<PathProbe>) -> (r: Result<Task, String>)
    ensures
        answers(r, if conn.remote() {
            Ok(remote_task(conn, "rm -rf -- "@ + shell_escaped(path@)))
        } else {
            gated(path@, prefixes, probe, false, TaskView::RemovePath { path: path@ })
        }),
{
    if conn.is_remote() {
        let mut cmd = lit("rm -rf -- ");
        append_escaped(&mut cmd, path);
        Ok(run_ssh(conn, cmd))
    } else {
        gate(path, prefixes, probe, false, Task::RemovePath { path: lit(path) })
    }
}

/// Creates a directory with its parents, locally only where the sandbox
/// allows it.
pub fn file_mkdir(conn: &Connection, path: &str, prefixes: &Vec<String>, probe: Option<PathProbe>) -> (r: Result<Task, String>)
    ensures
        answers(r, if conn.remote() {
            Ok(remote_task(conn, "mkdir -p -- "@ + shell_escaped(path@)))
        } else {
            gated(path@, prefixes, probe, true, TaskView::CreateDirAll { path: path@ })
        }),
{
    if conn.is_remote() {
        let mut cmd = lit("mkdir -p -- ");
        append_escaped(&mut cmd, path);
        Ok(run_ssh(conn, cmd))
    } else {
        gate(path, prefixes, probe, true, Task::CreateDirAll { path: lit(path) })
    }
}

/// Renames a path, locally only where the sandbox allows both the path and
/// its new name (the path is judged first).
pub fn file_rename(
    conn: &Connection,
    from: &str,
    to: &str,
    prefixes: &Vec<String>,
    from_probe: Option<PathProbe>,
    to_probe: Option<PathProbe>,
) -> (r: Result<Task, String>)
    ensures
        answers(r, if conn.remote() {
            Ok(remote_task(conn, "mv -- "@ + shell_escaped(from@) + seq![' '] + shell_escaped(to@)))
        } else {
            match access_answer(from@, prefixes.deep_view(), probe_of(from_probe), false) {
                Err(e) => Err(e),
                Ok(_) => gated(to@, prefixes, to_probe, true, TaskView::RenamePath { from: from@, to: to@ }),
            }
        }),
{
    if conn.is_remote() {
        let mut cmd = lit("mv -- ");
        append_escaped(&mut cmd, from);
        append_text(&mut cmd, " ");
        append_escaped(&mut cmd, to);
        proof {
            reveal_strlit(" ");
        }
        assert(cmd@ =~= "mv -- "@ + shell_escaped(from@) + seq![' '] + shell_escaped(to@));
        Ok(run_ssh(conn, cmd))
    } else {
        match check_access(from, prefixes, from_probe, false) {
            Err(e) => Err(e),
            Ok(_) => gate(to, prefixes, to_probe, true, Task::RenamePath { from: lit(from), to: lit(to) }),
        }
    }
}

/// Local file commands are confined: on this machine a file command answers
/// a task only where the sandbox accepts its path, and refuses with the
/// sandbox's error everywhere else.
pub proof fn law_file_commands_confined(
    path: Seq<char>,
    prefixes: &Vec<String>,
    probe: Option<PathProbe>,
    may_create: bool,
    t: TaskView,
)
    ensures
        access_answer(path, prefixes.deep_view(), probe_of(probe), may_create) matches Err(e) ==> gated(path, prefixes, probe, may_create, t) == Err::<TaskView, Seq<char>>(e),
        gated(path, prefixes, probe, may_create, t) is Ok ==> access_answer(path, prefixes.deep_view(), probe_of(probe), may_create) is Ok,
{
}

// ─── Scripts run as they are ────────────────────────────────────────────────

/// Interfaces, routes and name servers.
pub const NETWORK_SCRIPT: &'static str = "echo \"=== INTERFACES ===\"; ip -br addr show 2>/dev/null || ifconfig 2>/dev/null; echo \"=== ROUTES ===\"; ip route show 2>/dev/null || route -n 2>/dev/null; echo \"=== DNS ===\"; cat /etc/resolv.conf 2>/dev/null | grep -v '^#'";

/// The firewall rules from ufw, else iptables.
pub const FIREWALL_SCRIPT: &'static str = "sudo ufw status numbered 2>/dev/null || sudo iptables -L -n --line-numbers 2>/dev/null || echo \"No firewall found\"";

/// The current user's crontab, or a note that there is none.
pub const CRONTAB_LIST_SCRIPT: &'static str = "crontab -l 2>/dev/null || echo '(keine Cronjobs)'";

/// Pending package updates from apt, dnf or pacman.
pub const PACKAGE_UPDATES_SCRIPT: &'static str = "if command -v apt >/dev/null 2>&1; then apt list --upgradable 2>/dev/null; elif command -v dnf >/dev/null 2>&1; then dnf check-update 2>/dev/null; elif command -v pacman >/dev/null 2>&1; then pacman -Qu 2>/dev/null; else echo \"Kein unterstützter Paketmanager gefunden\"; fi";

/// The account database.
pub const USER_LIST_SCRIPT: &'static str = "cat /etc/passwd";

/// The WireGuard interfaces and peers.
pub const WIREGUARD_SCRIPT: &'static str = "sudo wg show all";

/// The Syncthing status, with the API key from its configuration.
pub const SYNCTHING_SCRIPT: &'static str = "curl -s http://localhost:8384/rest/system/status -H 'X-API-Key: $(cat /var/syncthing/config/config.xml 2>/dev/null | grep -oP 'apikey>[^<]+' | head -1 | cut -d'>' -f2)' 2>/dev/null || echo 'Syncthing nicht erreichbar'";

/// The Uptime Kuma heartbeats.
pub const UPTIME_KUMA_SCRIPT: &'static str = "curl -s http://localhost:3001/api/heartbeat 2>/dev/null || echo 'Uptime Kuma nicht erreichbar'";

/// Shows interfaces, routes and name servers.
pub fn network_info(conn: &Connection, shell: LocalShell) -> (t: Task)
    ensures
        t@ == script_task(conn, shell, NETWORK_SCRIPT@),
{
    run_script(conn, shell, lit(NETWORK_SCRIPT))
}

/// Shows the firewall rules.
pub fn firewall_status(conn: &Connection, shell: LocalShell) -> (t: Task)
    ensures
        t@ == script_task(conn, shell, FIREWALL_SCRIPT@),
{
    run_script(conn, shell, lit(FIREWALL_SCRIPT))
}

/// Shows the crontab.
pub fn crontab_list(conn: &Connection, shell: LocalShell) -> (t: Task)
    ensures
        t@ == script_task(conn, shell, CRONTAB_LIST_SCRIPT@),
{
    run_script(conn, shell, lit(CRONTAB_LIST_SCRIPT))
}

/// Shows pending package updates.
pub fn package_updates(conn: &Connection, shell: LocalShell) -> (t: Task)
    ensures
        t@ == script_task(conn, shell, PACKAGE_UPDATES_SCRIPT@),
{
    run_script(conn, shell, lit(PACKAGE_UPDATES_SCRIPT))
}

/// Prints the account database, to be read by `parse_user_list`.
pub fn user_list(conn: &Connection, shell: LocalShell) -> (t: Task)
    ensures
        t@ == script_task(conn, shell, USER_LIST_SCRIPT@),
{
    run_script(conn, shell, lit(USER_LIST_SCRIPT))
}

/// Shows the WireGuard peers.
pub fn allow_wireguard_peers(conn: &Connection, shell: LocalShell) -> (t: Task)
    ensures
        t@ == script_task(conn, shell, WIREGUARD_SCRIPT@),
{
    run_script(conn, shell, lit(WIREGUARD_SCRIPT))
}

/// Shows the Syncthing status.
pub fn allow_syncthing_folders(conn: &Connection, shell: LocalShell) -> (t: Task)
    ensures
        t@ == script_task(conn, shell, SYNCTHING_SCRIPT@),
{
    run_script(conn, shell, lit(SYNCTHING_SCRIPT))
}

/// Shows the Uptime Kuma heartbeats.
pub fn allow_uptime_kuma(conn: &Connection, shell: LocalShell) -> (t: Task)
    ensures
        t@ == script_task(conn, shell, UPTIME_KUMA_SCRIPT@),
{
    run_script(conn, shell, lit(UPTIME_KUMA_SCRIPT))
}

/// The command that saves a crontab on the remote host from standard input.
pub const CRONTAB_SAVE_COMMAND: &'static str = "crontab -";

/// Installs `content` as the crontab: fed to `crontab -` on the remote host,
/// else through a temporary file.
pub fn crontab_save(conn: &Connection, content: &str) -> (t: Task)
    ensures
        t@ == if conn.remote() {
            TaskView::SshWithInput {
                args: ssh_argv(conn.target(), CRONTAB_SAVE_COMMAND@),
                input: content@,
            }
        } else {
            TaskView::LoadCrontab { content: content@ }
        },
{
    if conn.is_remote() {
        Task::SshWithInput { args: ssh_args(conn, lit(CRONTAB_SAVE_COMMAND)), input: lit(content) }
    } else {
        Task::LoadCrontab { content: lit(content) }
    }
}

/// Runs an OCC command of Nextcloud, in its container or else directly.
pub fn allow_nextcloud_occ(conn: &Connection, args: &str, shell: LocalShell) -> (t: Task)
    ensures
        t@ == script_task(
            conn,
            shell,
            "docker exec -it nextcloud-aio-nextcloud php occ "@ + shell_escaped(args@)
                + " 2>/dev/null || sudo -u www-data php /var/www/nextcloud/occ "@ + shell_escaped(
                args@,
            ),
        ),
{
    let mut script = lit("docker exec -it nextcloud-aio-nextcloud php occ ");
    append_escaped(&mut script, args);
    append_text(&mut script, " 2>/dev/null || sudo -u www-data php /var/www/nextcloud/occ ");
    append_escaped(&mut script, args);
    run_script(conn, shell, script)
}

/// The signal that `process_kill` sends when none is given.
pub open spec fn signal_or_term(signal: Option<Seq<char>>) -> Seq<char> {
    match signal {
        Some(s) => s,
        None => "TERM"@,
    }
}

/// Sends a signal (TERM unless given) to a process.
pub fn process_kill(conn: &Connection, pid: u32, signal: Option<&str>, shell: LocalShell) -> (t: Task)
    ensures
        t@ == script_task(
            conn,
            shell,
            "kill -"@ + signal_or_term(
                match signal {
                    Some(s) => Some(s@),
                    None => None,
                },
            ) + seq![' '] + decimal(pid as nat),
        ),
{
    let mut cmd = lit("kill -");
    match signal {
        Some(s) => append_text(&mut cmd, s),
        None => append_text(&mut cmd, "TERM"),
    }
    append_text(&mut cmd, " ");
    let n = decimal_string(pid as u64);
    append_text(&mut cmd, n.as_str());
    proof {
        reveal_strlit(" ");
    }
    assert(cmd@ =~= "kill -"@ + signal_or_term(
        match signal {
            Some(s) => Some(s@),
            None => None,
        },
    ) + seq![' '] + decimal(pid as nat));
    run_script(conn, shell, cmd)
}

// ─── Remote-only reads ──────────────────────────────────────────────────────

/// Prints the whole seconds of uptime.
pub const UPTIME_COMMAND: &'static str = "cut -d. -f1 /proc/uptime";

/// Prints one line per real file system, in bytes, without the header.
pub const STORAGE_COMMAND: &'static str = "df -B1 --output=source,target,size,used,avail,pcent -x tmpfs -x devtmpfs -x squashfs 2>/dev/null | tail -n +2";

/// Prints the hundred busiest processes, without the header.
pub const PROCESS_COMMAND: &'static str = "ps aux --sort=-%cpu --no-headers 2>/dev/null | head -100";

/// Answers `ok` where the SSH connection works.
pub const PROBE_COMMAND: &'static str = "echo ok";

/// Prints `cpu|mem used kB|mem total kB|disk used|disk total|rx|tx|uptime|host|os`.
pub const REMOTE_STATS_SCRIPT: &'static str = "
export LANG=C
MT=$(awk '/MemTotal:/{print $2}' /proc/meminfo)
MA=$(awk '/MemAvailable:/{print $2}' /proc/meminfo)
MU=$((MT-MA))
DT=$(df -B1 / 2>/dev/null | tail -1 | awk '{print $2}')
DU=$(df -B1 / 2>/dev/null | tail -1 | awk '{print $3}')
UP=$(cut -d. -f1 /proc/uptime)
RX=$(awk 'NR>2{rx+=$2}END{print rx+0}' /proc/net/dev)
TX=$(awk 'NR>2{tx+=$10}END{print tx+0}' /proc/net/dev)
read _ u n s id wa ir sir steal < /proc/stat
TOT=$((u+n+s+id+wa+ir+sir+steal))
CPU=$(awk -v u=$u -v n=$n -v s=$s -v t=$TOT 'BEGIN{if(t>0) printf \"%.1f\", (u+n+s)*100/t; else print \"0\"}')
echo \"${CPU}|${MU}|${MT}|${DU}|${DT}|${RX}|${TX}|${UP}|$(hostname)|$(uname -sr)\"
";

/// The remote command for a read that this machine answers itself.
pub open spec fn remote_only(conn: &Connection, cmd: Seq<char>, t: Option<Task>) -> bool {
    if conn.remote() {
        t matches Some(x) && x@ == remote_task(conn, cmd)
    } else {
        t is None
    }
}

fn remote_read(conn: &Connection, cmd: &str) -> (t: Option<Task>)
    ensures
        remote_only(conn, cmd@, t),
{
    if conn.is_remote() {
        Some(run_ssh(conn, lit(cmd)))
    } else {
        None
    }
}

/// The remote uptime read; none on this machine.
pub fn get_uptime(conn: &Connection) -> (t: Option<Task>)
    ensures
        remote_only(conn, UPTIME_COMMAND@, t),
{
    remote_read(conn, UPTIME_COMMAND)
}

/// The remote file system listing; none on this machine.
pub fn storage_info(conn: &Connection) -> (t: Option<Task>)
    ensures
        remote_only(conn, STORAGE_COMMAND@, t),
{
    remote_read(conn, STORAGE_COMMAND)
}

/// The remote process listing; none on this machine.
pub fn process_list(conn: &Connection) -> (t: Option<Task>)
    ensures
        remote_only(conn, PROCESS_COMMAND@, t),
{
    remote_read(conn, PROCESS_COMMAND)
}

/// The remote connection probe; none on this machine.
pub fn test_ssh_connection(conn: &Connection) -> (t: Option<Task>)
    ensures
        remote_only(conn, PROBE_COMMAND@, t),
{
    remote_read(conn, PROBE_COMMAND)
}

/// The remote statistics script; none on this machine.
pub fn remote_system_stats(conn: &Connection) -> (t: Option<Task>)
    ensures
        remote_only(conn, REMOTE_STATS_SCRIPT@, t),
{
    remote_read(conn, REMOTE_STATS_SCRIPT)
}


// ─── Requests checked against a list ────────────────────────────────────────

/// The firewall actions that `firewall_action` accepts.
pub open spec fn firewall_actions() -> Seq<Seq<char>> {
    seq!["allow"@, "deny"@, "delete"@, "enable"@, "disable"@, "reload"@]
}

/// Applies a ufw action to a rule (with `sudo`); refuses any other action.
pub fn firewall_action(conn: &Connection, action: &str, rule: &str) -> (r: Result<Task, String>)
    ensures
        match r {
            Ok(t) => firewall_actions().contains(action@) && t@ == target_task(
                conn,
                "sudo"@,
                seq!["ufw"@, action@, rule@],
                "sudo ufw "@ + action@ + seq![' '] + shell_escaped(rule@),
            ),
            Err(e) => !firewall_actions().contains(action@) && e@ == "Invalid firewall action"@,
        },
{
    if !(str_eq(action, "allow") || str_eq(action, "deny") || str_eq(action, "delete") || str_eq(action, "enable") || str_eq(action, "disable") || str_eq(action, "reload")) {
        assert(!firewall_actions().contains(action@)) by {
            if firewall_actions().contains(action@) {
                let k = choose|k: int| 0 <= k < 6 && firewall_actions()[k] == action@;
            }
        }
        return Err(lit("Invalid firewall action"));
    }
    assert(firewall_actions().contains(action@)) by {
        if action@ == "allow"@ { assert(firewall_actions()[0] == action@); }
        else if action@ == "deny"@ { assert(firewall_actions()[1] == action@); }
        else if action@ == "delete"@ { assert(firewall_actions()[2] == action@); }
        else if action@ == "enable"@ { assert(firewall_actions()[3] == action@); }
        else if action@ == "disable"@ { assert(firewall_actions()[4] == action@); }
        else { assert(firewall_actions()[5] == action@); }
    }
    let mut cmd = lit("sudo ufw ");
    append_text(&mut cmd, action);
    append_text(&mut cmd, " ");
    append_escaped(&mut cmd, rule);
    proof {
        reveal_strlit(" ");
    }
    assert(cmd@ =~= "sudo ufw "@ + action@ + seq![' '] + shell_escaped(rule@));
    let mut args: Vec<String> = Vec::new();
    args.push(lit("ufw"));
    args.push(lit(action));
    args.push(lit(rule));
    assert(args.deep_view() =~= seq!["ufw"@, action@, rule@]);
    Ok(run_on_target(conn, "sudo", args, cmd))
}

/// The package actions that `package_action` accepts.
pub open spec fn package_actions() -> Seq<Seq<char>> {
    seq!["install"@, "remove"@, "update"@]
}

pub const INSTALL_APT: &'static str = "if command -v apt >/dev/null 2>&1; then sudo apt install -y ";
pub const INSTALL_DNF: &'static str = "; elif command -v dnf >/dev/null 2>&1; then sudo dnf install -y ";
pub const INSTALL_PACMAN: &'static str = "; elif command -v pacman >/dev/null 2>&1; then sudo pacman -S --noconfirm ";
pub const REMOVE_APT: &'static str = "if command -v apt >/dev/null 2>&1; then sudo apt remove -y ";
pub const REMOVE_DNF: &'static str = "; elif command -v dnf >/dev/null 2>&1; then sudo dnf remove -y ";
pub const REMOVE_PACMAN: &'static str = "; elif command -v pacman >/dev/null 2>&1; then sudo pacman -R --noconfirm ";
pub const NO_PACKAGE_MANAGER: &'static str = "; else echo \"Kein Paketmanager\"; fi";
pub const UPDATE_SCRIPT: &'static str = "if command -v apt >/dev/null 2>&1; then sudo apt update && sudo apt upgrade -y; elif command -v dnf >/dev/null 2>&1; then sudo dnf upgrade -y; elif command -v pacman >/dev/null 2>&1; then sudo pacman -Syu --noconfirm; else echo \"Kein Paketmanager\"; fi";

/// The script for a package action: with apt, else dnf, else pacman, each
/// given the shell-quoted package name `e`.
pub open spec fn package_script(action: Seq<char>, e: Seq<char>) -> Seq<char> {
    if action == "install"@ {
        INSTALL_APT@ + e + INSTALL_DNF@ + e + INSTALL_PACMAN@ + e + NO_PACKAGE_MANAGER@
    } else if action == "remove"@ {
        REMOVE_APT@ + e + REMOVE_DNF@ + e + REMOVE_PACMAN@ + e + NO_PACKAGE_MANAGER@
    } else {
        UPDATE_SCRIPT@
    }
}

fn manager_script(a: &str, b: &str, c: &str, e: &str) -> (r: String)
    ensures
        r@ == a@ + e@ + b@ + e@ + c@ + e@ + NO_PACKAGE_MANAGER@,
{
    let mut r = lit(a);
    append_text(&mut r, e);
    append_text(&mut r, b);
    append_text(&mut r, e);
    append_text(&mut r, c);
    append_text(&mut r, e);
    append_text(&mut r, NO_PACKAGE_MANAGER);
    r
}

/// Installs or removes a package, or updates all; refuses any other action.
pub fn package_action(conn: &Connection, name: &str, action: &str, shell: LocalShell) -> (r: Result<Task, String>)
    ensures
        match r {
            Ok(t) => package_actions().contains(action@) && t@ == script_task(
                conn,
                shell,
                package_script(action@, shell_escaped(name@)),
            ),
            Err(e) => !package_actions().contains(action@) && e@ == "Invalid package action"@,
        },
{
    if !(str_eq(action, "install") || str_eq(action, "remove") || str_eq(action, "update")) {
        assert(!package_actions().contains(action@)) by {
            if package_actions().contains(action@) {
                let k = choose|k: int| 0 <= k < 3 && package_actions()[k] == action@;
            }
        }
        return Err(lit("Invalid package action"));
    }
    assert(package_actions().contains(action@)) by {
        if action@ == "install"@ { assert(package_actions()[0] == action@); }
        else if action@ == "remove"@ { assert(package_actions()[1] == action@); }
        else { assert(package_actions()[2] == action@); }
    }
    let e = shell_escape(name);
    let script = if str_eq(action, "install") {
        manager_script(INSTALL_APT, INSTALL_DNF, INSTALL_PACMAN, e.as_str())
    } else if str_eq(action, "remove") {
        manager_script(REMOVE_APT, REMOVE_DNF, REMOVE_PACMAN, e.as_str())
    } else {
        lit(UPDATE_SCRIPT)
    };
    Ok(run_script(conn, shell, script))
}

/// The Jellyfin actions that `allow_jellyfin_control` accepts.
pub open spec fn jellyfin_actions() -> Seq<Seq<char>> {
    seq!["sessions"@, "libraries"@, "system-info"@, "restart"@]
}
pub const JELLYFIN_SESSIONS: &'static str = "curl -s http://localhost:8096/Sessions?api_key=$(cat /var/lib/jellyfin/config/system.xml 2>/dev/null | grep -oP 'APIKey>[^<]+' | head -1 | cut -d'>' -f2) || echo 'Jellyfin nicht erreichbar'";
pub const JELLYFIN_LIBRARIES: &'static str = "curl -s http://localhost:8096/Library/VirtualFolders?api_key=$(cat /var/lib/jellyfin/config/system.xml 2>/dev/null | grep -oP 'APIKey>[^<]+' | head -1 | cut -d'>' -f2) || echo 'Jellyfin nicht erreichbar'";
pub const JELLYFIN_SYSTEM_INFO: &'static str = "curl -s http://localhost:8096/System/Info?api_key=$(cat /var/lib/jellyfin/config/system.xml 2>/dev/null | grep -oP 'APIKey>[^<]+' | head -1 | cut -d'>' -f2) || echo 'Jellyfin nicht erreichbar'";
pub const JELLYFIN_RESTART: &'static str = "sudo systemctl restart jellyfin";

/// The script for each Jellyfin action.
pub open spec fn jellyfin_script(action: Seq<char>) -> Seq<char> {
    if action == "sessions"@ {
        JELLYFIN_SESSIONS@
    } else if action == "libraries"@ {
        JELLYFIN_LIBRARIES@
    } else if action == "system-info"@ {
        JELLYFIN_SYSTEM_INFO@
    } else {
        JELLYFIN_RESTART@
    }
}

/// Queries or restarts Jellyfin; refuses any other action.
pub fn allow_jellyfin_control(conn: &Connection, action: &str, shell: LocalShell) -> (r: Result<Task, String>)
    ensures
        match r {
            Ok(t) => jellyfin_actions().contains(action@) && t@ == script_task(conn, shell, jellyfin_script(action@)),
            Err(e) => !jellyfin_actions().contains(action@) && e@ == "Invalid Jellyfin action"@,
        },
{
    if !(str_eq(action, "sessions") || str_eq(action, "libraries") || str_eq(action, "system-info") || str_eq(action, "restart")) {
        assert(!jellyfin_actions().contains(action@)) by {
            if jellyfin_actions().contains(action@) {
                let k = choose|k: int| 0 <= k < 4 && jellyfin_actions()[k] == action@;
            }
        }
        return Err(lit("Invalid Jellyfin action"));
    }
    assert(jellyfin_actions().contains(action@)) by {
        if action@ == "sessions"@ { assert(jellyfin_actions()[0] == action@); }
        else if action@ == "libraries"@ { assert(jellyfin_actions()[1] == action@); }
        else if action@ == "system-info"@ { assert(jellyfin_actions()[2] == action@); }
        else { assert(jellyfin_actions()[3] == action@); }
    }
    let script = if str_eq(action, "sessions") {
        lit(JELLYFIN_SESSIONS)
    } else if str_eq(action, "libraries") {
        lit(JELLYFIN_LIBRARIES)
    } else if str_eq(action, "system-info") {
        lit(JELLYFIN_SYSTEM_INFO)
    } else {
        lit(JELLYFIN_RESTART)
    };
    Ok(run_script(conn, shell, script))
}

/// The media service actions that `allow_arr_stack` accepts.
pub open spec fn arr_actions() -> Seq<Seq<char>> {
    seq!["status"@, "plex"@, "sonarr"@, "radarr"@, "lidarr"@, "readarr"@, "bazarr"@]
}
pub const ARR_STATUS: &'static str = "systemctl is-active plexmediaserver sonarr radarr lidarr readarr bazarr 2>/dev/null | paste - - - - - - || echo 'Arr-Services prüfen'";
pub const ARR_PLEX: &'static str = "curl -s http://localhost:32400/identity 2>/dev/null || echo 'Plex nicht erreichbar'";
pub const ARR_SONARR: &'static str = "curl -s http://localhost:8989/api/system/status 2>/dev/null || echo 'Sonarr nicht erreichbar'";
pub const ARR_RADARR: &'static str = "curl -s http://localhost:7878/api/system/status 2>/dev/null || echo 'Radarr nicht erreichbar'";
pub const ARR_LIDARR: &'static str = "curl -s http://localhost:8686/api/v1/system/status 2>/dev/null || echo 'Lidarr nicht erreichbar'";
pub const ARR_READARR: &'static str = "curl -s http://localhost:8787/api/v1/system/status 2>/dev/null || echo 'Readarr nicht erreichbar'";
pub const ARR_BAZARR: &'static str = "curl -s http://localhost:6767/api/system/status 2>/dev/null || echo 'Bazarr nicht erreichbar'";

/// The script for each media service action.
pub open spec fn arr_script(action: Seq<char>) -> Seq<char> {
    if action == "status"@ {
        ARR_STATUS@
    } else if action == "plex"@ {
        ARR_PLEX@
    } else if action == "sonarr"@ {
        ARR_SONARR@
    } else if action == "radarr"@ {
        ARR_RADARR@
    } else if action == "lidarr"@ {
        ARR_LIDARR@
    } else if action == "readarr"@ {
        ARR_READARR@
    } else {
        ARR_BAZARR@
    }
}

/// Asks the media services for their state; refuses any other action.
pub fn allow_arr_stack(conn: &Connection, action: &str, shell: LocalShell) -> (r: Result<Task, String>)
    ensures
        match r {
            Ok(t) => arr_actions().contains(action@) && t@ == script_task(conn, shell, arr_script(action@)),
            Err(e) => !arr_actions().contains(action@) && e@ == "Invalid Arr action"@,
        },
{
    if !(str_eq(action, "status") || str_eq(action, "plex") || str_eq(action, "sonarr") || str_eq(action, "radarr") || str_eq(action, "lidarr") || str_eq(action, "readarr") || str_eq(action, "bazarr")) {
        assert(!arr_actions().contains(action@)) by {
            if arr_actions().contains(action@) {
                let k = choose|k: int| 0 <= k < 7 && arr_actions()[k] == action@;
            }
        }
        return Err(lit("Invalid Arr action"));
    }
    assert(arr_actions().contains(action@)) by {
        if action@ == "status"@ { assert(arr_actions()[0] == action@); }
        else if action@ == "plex"@ { assert(arr_actions()[1] == action@); }
        else if action@ == "sonarr"@ { assert(arr_actions()[2] == action@); }
        else if action@ == "radarr"@ { assert(arr_actions()[3] == action@); }
        else if action@ == "lidarr"@ { assert(arr_actions()[4] == action@); }
        else if action@ == "readarr"@ { assert(arr_actions()[5] == action@); }
        else { assert(arr_actions()[6] == action@); }
    }
    let script = if str_eq(action, "status") {
        lit(ARR_STATUS)
    } else if str_eq(action, "plex") {
        lit(ARR_PLEX)
    } else if str_eq(action, "sonarr") {
        lit(ARR_SONARR)
    } else if str_eq(action, "radarr") {
        lit(ARR_RADARR)
    } else if str_eq(action, "lidarr") {
        lit(ARR_LIDARR)
    } else if str_eq(action, "readarr") {
        lit(ARR_READARR)
    } else {
        lit(ARR_BAZARR)
    };
    Ok(run_script(conn, shell, script))
}

/// The Ollama actions that `allow_ollama_models` accepts.
pub open spec fn ollama_actions() -> Seq<Seq<char>> {
    seq!["list"@, "ps"@, "pull"@]
}
pub const OLLAMA_LIST: &'static str = "curl -s http://localhost:11434/api/tags 2>/dev/null || echo 'Ollama nicht erreichbar'";
pub const OLLAMA_PS: &'static str = "curl -s http://localhost:11434/api/ps 2>/dev/null || echo 'Ollama nicht erreichbar'";
pub const OLLAMA_PULL: &'static str = "echo 'Pull über UI oder ollama pull <model> starten'";

/// The script for each Ollama action.
pub open spec fn ollama_script(action: Seq<char>) -> Seq<char> {
    if action == "list"@ {
        OLLAMA_LIST@
    } else if action == "ps"@ {
        OLLAMA_PS@
    } else {
        OLLAMA_PULL@
    }
}

/// Lists the Ollama models, installed or loaded; refuses any other action.
pub fn allow_ollama_models(conn: &Connection, action: &str, shell: LocalShell) -> (r: Result<Task, String>)
    ensures
        match r {
            Ok(t) => ollama_actions().contains(action@) && t@ == script_task(conn, shell, ollama_script(action@)),
            Err(e) => !ollama_actions().contains(action@) && e@ == "Invalid Ollama action"@,
        },
{
    if !(str_eq(action, "list") || str_eq(action, "ps") || str_eq(action, "pull")) {
        assert(!ollama_actions().contains(action@)) by {
            if ollama_actions().contains(action@) {
                let k = choose|k: int| 0 <= k < 3 && ollama_actions()[k] == action@;
            }
        }
        return Err(lit("Invalid Ollama action"));
    }
    assert(ollama_actions().contains(action@)) by {
        if action@ == "list"@ { assert(ollama_actions()[0] == action@); }
        else if action@ == "ps"@ { assert(ollama_actions()[1] == action@); }
        else { assert(ollama_actions()[2] == action@); }
    }
    let script = if str_eq(action, "list") {
        lit(OLLAMA_LIST)
    } else if str_eq(action, "ps") {
        lit(OLLAMA_PS)
    } else {
        lit(OLLAMA_PULL)
    };
    Ok(run_script(conn, shell, script))
}

/// The power actions that `system_power` accepts.
pub open spec fn power_actions() -> Seq<Seq<char>> {
    seq!["reboot"@, "shutdown"@, "poweroff"@]
}

/// The command for a power action.
pub open spec fn power_command(action: Seq<char>) -> Seq<char> {
    if action == "reboot"@ {
        "sudo reboot"@
    } else {
        "sudo shutdown -h now"@
    }
}

/// Reboots or shuts down the host; on the remote host the reply does not
/// wait for the outcome. Refuses any other action.
pub fn system_power(conn: &Connection, action: &str, shell: LocalShell) -> (r: Result<Task, String>)
    ensures
        match r {
            Ok(t) => power_actions().contains(action@) && t@ == if conn.remote() {
                TaskView::SshDetached {
                    args: ssh_argv(conn.target(), power_command(action@)),
                    reply: action@ + " initiated"@,
                }
            } else {
                script_task(conn, shell, power_command(action@))
            },
            Err(e) => !power_actions().contains(action@) && e@ == "Invalid power action"@,
        },
{
    if !(str_eq(action, "reboot") || str_eq(action, "shutdown") || str_eq(action, "poweroff")) {
        assert(!power_actions().contains(action@)) by {
            if power_actions().contains(action@) {
                let k = choose|k: int| 0 <= k < 3 && power_actions()[k] == action@;
            }
        }
        return Err(lit("Invalid power action"));
    }
    assert(power_actions().contains(action@)) by {
        if action@ == "reboot"@ { assert(power_actions()[0] == action@); }
        else if action@ == "shutdown"@ { assert(power_actions()[1] == action@); }
        else { assert(power_actions()[2] == action@); }
    }
    let cmd = if str_eq(action, "reboot") {
        lit("sudo reboot")
    } else {
        lit("sudo shutdown -h now")
    };
    if conn.is_remote() {
        let mut reply = lit(action);
        append_text(&mut reply, " initiated");
        Ok(Task::SshDetached { args: ssh_args(conn, cmd), reply })
    } else {
        Ok(run_script(conn, shell, cmd))
    }
}


/// What each package action runs, for every package name: "install" has
/// apt, dnf or pacman (the first one found) install the quoted name,
/// "remove" has the same manager remove it, and "update" upgrades every
/// package; none of them installs on "remove" or removes on "install".
pub proof fn law_package_scripts(name: Seq<char>)
    ensures
        package_script("install"@, shell_escaped(name)) == "if command -v apt >/dev/null 2>&1; then sudo apt install -y "@
            + shell_escaped(name) + "; elif command -v dnf >/dev/null 2>&1; then sudo dnf install -y "@
            + shell_escaped(name) + "; elif command -v pacman >/dev/null 2>&1; then sudo pacman -S --noconfirm "@
            + shell_escaped(name) + "; else echo \"Kein Paketmanager\"; fi"@,
        package_script("remove"@, shell_escaped(name)) == "if command -v apt >/dev/null 2>&1; then sudo apt remove -y "@
            + shell_escaped(name) + "; elif command -v dnf >/dev/null 2>&1; then sudo dnf remove -y "@
            + shell_escaped(name) + "; elif command -v pacman >/dev/null 2>&1; then sudo pacman -R --noconfirm "@
            + shell_escaped(name) + "; else echo \"Kein Paketmanager\"; fi"@,
        package_script("update"@, shell_escaped(name)) == "if command -v apt >/dev/null 2>&1; then sudo apt update && sudo apt upgrade -y; elif command -v dnf >/dev/null 2>&1; then sudo dnf upgrade -y; elif command -v pacman >/dev/null 2>&1; then sudo pacman -Syu --noconfirm; else echo \"Kein Paketmanager\"; fi"@,
{
    reveal_strlit("install");
    reveal_strlit("remove");
    reveal_strlit("update");
    assert("remove"@ != "install"@) by {
        assert("remove"@[0] != "install"@[0]);
    }
    assert("update"@ != "install"@ && "update"@ != "remove"@) by {
        assert("update"@[0] != "install"@[0]);
        assert("update"@[0] != "remove"@[0]);
    }
}

/// What each power action runs: "reboot" reboots the host, and both
/// "shutdown" and "poweroff" halt it with `shutdown -h now`, never a reboot.
pub proof fn law_power_commands(action: Seq<char>)
    requires
        power_actions().contains(action),
    ensures
        action == "reboot"@ ==> power_command(action) == "sudo reboot"@,
        action != "reboot"@ ==> power_command(action) == "sudo shutdown -h now"@,
        action == "shutdown"@ || action == "poweroff"@ <==> power_command(action) == "sudo shutdown -h now"@,
        power_command("shutdown"@) == power_command("poweroff"@),
{
    let k = choose|k: int| 0 <= k < power_actions().len() && power_actions()[k] == action;
    assert(power_actions()[k] == action);
    reveal_strlit("reboot");
    reveal_strlit("shutdown");
    reveal_strlit("poweroff");
    reveal_strlit("sudo reboot");
    reveal_strlit("sudo shutdown -h now");
    assert("reboot"@.len() == 6 && "shutdown"@.len() == 8 && "poweroff"@.len() == 8);
    assert("sudo reboot"@.len() == 11 && "sudo shutdown -h now"@.len() == 20);
}

/// What each Jellyfin action runs: the sessions, libraries and system
/// information are asked of the local Jellyfin API with the key from its
/// configuration, and "restart" restarts the service.
pub proof fn law_jellyfin_scripts(action: Seq<char>)
    requires
        jellyfin_actions().contains(action),
    ensures
        action == "sessions"@ ==> jellyfin_script(action) == "curl -s http://localhost:8096/Sessions?api_key=$(cat /var/lib/jellyfin/config/system.xml 2>/dev/null | grep -oP 'APIKey>[^<]+' | head -1 | cut -d'>' -f2) || echo 'Jellyfin nicht erreichbar'"@,
        action == "libraries"@ ==> jellyfin_script(action) == "curl -s http://localhost:8096/Library/VirtualFolders?api_key=$(cat /var/lib/jellyfin/config/system.xml 2>/dev/null | grep -oP 'APIKey>[^<]+' | head -1 | cut -d'>' -f2) || echo 'Jellyfin nicht erreichbar'"@,
        action == "system-info"@ ==> jellyfin_script(action) == "curl -s http://localhost:8096/System/Info?api_key=$(cat /var/lib/jellyfin/config/system.xml 2>/dev/null | grep -oP 'APIKey>[^<]+' | head -1 | cut -d'>' -f2) || echo 'Jellyfin nicht erreichbar'"@,
        action == "restart"@ ==> jellyfin_script(action) == "sudo systemctl restart jellyfin"@,
{
    let k = choose|k: int| 0 <= k < jellyfin_actions().len() && jellyfin_actions()[k] == action;
    assert(jellyfin_actions()[k] == action);
    reveal_strlit("sessions");
    reveal_strlit("libraries");
    reveal_strlit("system-info");
    reveal_strlit("restart");
    assert("sessions"@[0] != "libraries"@[0]);
    assert("sessions"@[1] != "system-info"@[1]);
    assert("sessions"@[0] != "restart"@[0]);
    assert("libraries"@[0] != "system-info"@[0]);
    assert("libraries"@[0] != "restart"@[0]);
    assert("system-info"@[0] != "restart"@[0]);
}

/// What each media service action runs: "status" asks systemd for all
/// six services at once, each other action asks that one service's own
/// port.
pub proof fn law_arr_scripts(action: Seq<char>)
    requires
        arr_actions().contains(action),
    ensures
        action == "status"@ ==> arr_script(action) == "systemctl is-active plexmediaserver sonarr radarr lidarr readarr bazarr 2>/dev/null | paste - - - - - - || echo 'Arr-Services prüfen'"@,
        action == "plex"@ ==> arr_script(action) == "curl -s http://localhost:32400/identity 2>/dev/null || echo 'Plex nicht erreichbar'"@,
        action == "sonarr"@ ==> arr_script(action) == "curl -s http://localhost:8989/api/system/status 2>/dev/null || echo 'Sonarr nicht erreichbar'"@,
        action == "radarr"@ ==> arr_script(action) == "curl -s http://localhost:7878/api/system/status 2>/dev/null || echo 'Radarr nicht erreichbar'"@,
        action == "lidarr"@ ==> arr_script(action) == "curl -s http://localhost:8686/api/v1/system/status 2>/dev/null || echo 'Lidarr nicht erreichbar'"@,
        action == "readarr"@ ==> arr_script(action) == "curl -s http://localhost:8787/api/v1/system/status 2>/dev/null || echo 'Readarr nicht erreichbar'"@,
        action == "bazarr"@ ==> arr_script(action) == "curl -s http://localhost:6767/api/system/status 2>/dev/null || echo 'Bazarr nicht erreichbar'"@,
{
    let k = choose|k: int| 0 <= k < arr_actions().len() && arr_actions()[k] == action;
    assert(arr_actions()[k] == action);
    reveal_strlit("status");
    reveal_strlit("plex");
    reveal_strlit("sonarr");
    reveal_strlit("radarr");
    reveal_strlit("lidarr");
    reveal_strlit("readarr");
    reveal_strlit("bazarr");
    assert("status"@[0] != "plex"@[0]);
    assert("status"@[1] != "sonarr"@[1]);
    assert("status"@[0] != "radarr"@[0]);
    assert("status"@[0] != "lidarr"@[0]);
    assert("status"@[0] != "readarr"@[0]);
    assert("status"@[0] != "bazarr"@[0]);
    assert("plex"@[0] != "sonarr"@[0]);
    assert("plex"@[0] != "radarr"@[0]);
    assert("plex"@[0] != "lidarr"@[0]);
    assert("plex"@[0] != "readarr"@[0]);
    assert("plex"@[0] != "bazarr"@[0]);
    assert("sonarr"@[0] != "radarr"@[0]);
    assert("sonarr"@[0] != "lidarr"@[0]);
    assert("sonarr"@[0] != "readarr"@[0]);
    assert("sonarr"@[0] != "bazarr"@[0]);
    assert("radarr"@[0] != "lidarr"@[0]);
    assert("radarr"@[1] != "readarr"@[1]);
    assert("radarr"@[0] != "bazarr"@[0]);
    assert("lidarr"@[0] != "readarr"@[0]);
    assert("lidarr"@[0] != "bazarr"@[0]);
    assert("readarr"@[0] != "bazarr"@[0]);
}

/// What each Ollama action runs: "list" asks for the installed models,
/// "ps" for the loaded ones, and "pull" only says how to pull one.
pub proof fn law_ollama_scripts(action: Seq<char>)
    requires
        ollama_actions().contains(action),
    ensures
        action == "list"@ ==> ollama_script(action) == "curl -s http://localhost:11434/api/tags 2>/dev/null || echo 'Ollama nicht erreichbar'"@,
        action == "ps"@ ==> ollama_script(action) == "curl -s http://localhost:11434/api/ps 2>/dev/null || echo 'Ollama nicht erreichbar'"@,
        action == "pull"@ ==> ollama_script(action) == "echo 'Pull über UI oder ollama pull <model> starten'"@,
{
    let k = choose|k: int| 0 <= k < ollama_actions().len() && ollama_actions()[k] == action;
    assert(ollama_actions()[k] == action);
    reveal_strlit("list");
    reveal_strlit("ps");
    reveal_strlit("pull");
    assert("list"@[0] != "ps"@[0]);
    assert("list"@[0] != "pull"@[0]);
    assert("ps"@[1] != "pull"@[1]);
}

} // verus!
