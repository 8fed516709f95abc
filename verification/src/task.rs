//! Where a command runs and what is run: the connection to the managed host
//! and the tasks that the application carries out for the library.
use vstd::prelude::*;
use crate::shell::{ssh_target, ssh_target_text};

verus! {

broadcast use vstd::string::group_string_axioms;

/// The managed host: an SSH host and user, or this machine where the host
/// is empty.
pub struct Connection {
    pub host: String,
    pub user: String,
}

impl Connection {
    /// No remote host: commands run on this machine.
    pub fn new() -> (c: Connection)
        ensures
            c.host@ == Seq::<char>::empty(),
            c.user@ == Seq::<char>::empty(),
    {
        Connection { host: String::new(), user: String::new() }
    }

    pub open spec fn remote(&self) -> bool {
        self.host@.len() > 0
    }

    /// The SSH destination of this connection.
    pub open spec fn target(&self) -> Seq<char> {
        ssh_target_text(self.host@, self.user@)
    }

    /// Whether commands go to a remote host.
    pub fn is_remote(&self) -> (b: bool)
        ensures
            b == self.remote(),
    {
        !self.host.as_str().is_empty()
    }
}

/// How this machine runs a shell command line.
#[derive(Clone, Copy)]
pub enum LocalShell {
    /// `sh -c`
    Posix,
    /// `powershell -Command`
    PowerShell,
}

/// One piece of outside work for the application to carry out.
pub enum Task {
    /// Run a program on this machine and take its outcome.
    Run { program: String, args: Vec<String> },
    /// Run `ssh` with these arguments and take its outcome.
    Ssh { args: Vec<String> },
    /// Run `ssh` with these arguments, feeding `input` to its standard input.
    SshWithInput { args: Vec<String>, input: String },
    /// Run `ssh` with these arguments, ignore what happens and reply `reply`.
    SshDetached { args: Vec<String>, reply: String },
    /// Read a local file as text.
    ReadFile { path: String },
    /// Write text to a local file, replying "OK".
    WriteFile { path: String, content: String },
    /// Remove a local file, or a directory with its contents, replying "OK".
    RemovePath { path: String },
    /// Create a local directory with its parents, replying "OK".
    CreateDirAll { path: String },
    /// Rename a local path, replying "OK".
    RenamePath { from: String, to: String },
    /// List a local directory.
    ListDir { path: String },
    /// Install `content` as this user's crontab through a temporary file.
    LoadCrontab { content: String },
}

/// A task as plain text values.
pub enum TaskView {
    Run { program: Seq<char>, args: Seq<Seq<char>> },
    Ssh { args: Seq<Seq<char>> },
    SshWithInput { args: Seq<Seq<char>>, input: Seq<char> },
    SshDetached { args: Seq<Seq<char>>, reply: Seq<char> },
    ReadFile { path: Seq<char> },
    WriteFile { path: Seq<char>, content: Seq<char> },
    RemovePath { path: Seq<char> },
    CreateDirAll { path: Seq<char> },
    RenamePath { from: Seq<char>, to: Seq<char> },
    ListDir { path: Seq<char> },
    LoadCrontab { content: Seq<char> },
}

impl View for Task {
    type V = TaskView;

    open spec fn view(&self) -> TaskView {
        match self {
            Task::Run { program, args } => TaskView::Run {
                program: program@,
                args: args.deep_view(),
            },
            Task::Ssh { args } => TaskView::Ssh { args: args.deep_view() },
            Task::SshWithInput { args, input } => TaskView::SshWithInput {
                args: args.deep_view(),
                input: input@,
            },
            Task::SshDetached { args, reply } => TaskView::SshDetached {
                args: args.deep_view(),
                reply: reply@,
            },
            Task::ReadFile { path } => TaskView::ReadFile { path: path@ },
            Task::WriteFile { path, content } => TaskView::WriteFile {
                path: path@,
                content: content@,
            },
            Task::RemovePath { path } => TaskView::RemovePath { path: path@ },
            Task::CreateDirAll { path } => TaskView::CreateDirAll { path: path@ },
            Task::RenamePath { from, to } => TaskView::RenamePath { from: from@, to: to@ },
            Task::ListDir { path } => TaskView::ListDir { path: path@ },
            Task::LoadCrontab { content } => TaskView::LoadCrontab { content: content@ },
        }
    }
}

/// The arguments of `ssh` for one remote command: batch mode, an eight
/// second connect timeout, new host keys accepted, then target and command.
pub open spec fn ssh_argv(target: Seq<char>, cmd: Seq<char>) -> Seq<Seq<char>> {
    seq![
        "-o"@,
        "BatchMode=yes"@,
        "-o"@,
        "ConnectTimeout=8"@,
        "-o"@,
        "StrictHostKeyChecking=accept-new"@,
        target,
        cmd,
    ]
}

/// Running `cmd` on the connection's remote host.
pub open spec fn remote_task(conn: &Connection, cmd: Seq<char>) -> TaskView {
    TaskView::Ssh { args: ssh_argv(conn.target(), cmd) }
}

/// Running the command line `cmd` through this machine's shell.
pub open spec fn shell_task(cmd: Seq<char>, shell: LocalShell) -> TaskView {
    match shell {
        LocalShell::Posix => TaskView::Run { program: "sh"@, args: seq!["-c"@, cmd] },
        LocalShell::PowerShell => TaskView::Run {
            program: "powershell"@,
            args: seq!["-Command"@, cmd],
        },
    }
}

/// A shell script, run on the remote host where there is one, else locally.
pub open spec fn script_task(conn: &Connection, shell: LocalShell, script: Seq<char>) -> TaskView {
    if conn.remote() {
        remote_task(conn, script)
    } else {
        shell_task(script, shell)
    }
}

/// A program with arguments locally, or a command line on the remote host.
pub open spec fn target_task(
    conn: &Connection,
    program: Seq<char>,
    args: Seq<Seq<char>>,
    remote_cmd: Seq<char>,
) -> TaskView {
    if conn.remote() {
        remote_task(conn, remote_cmd)
    } else {
        TaskView::Run { program, args }
    }
}

/// A `String` with the text of a literal.
pub fn lit(s: &str) -> (r: String)
    ensures
        r@ == s@,
{
    String::from_str(s)
}

/// The `ssh` arguments for a remote command.
pub fn ssh_args(conn: &Connection, cmd: String) -> (a: Vec<String>)
    ensures
        a.deep_view() == ssh_argv(conn.target(), cmd@),
{
    let mut a: Vec<String> = Vec::new();
    a.push(lit("-o"));
    a.push(lit("BatchMode=yes"));
    a.push(lit("-o"));
    a.push(lit("ConnectTimeout=8"));
    a.push(lit("-o"));
    a.push(lit("StrictHostKeyChecking=accept-new"));
    a.push(ssh_target(conn.host.as_str(), conn.user.as_str()));
    a.push(cmd);
    assert(a.deep_view() =~= ssh_argv(conn.target(), cmd@));
    a
}

/// Runs a command line on the remote host.
pub fn run_ssh(conn: &Connection, remote_cmd: String) -> (t: Task)
    ensures
        t@ == remote_task(conn, remote_cmd@),
{
    Task::Ssh { args: ssh_args(conn, remote_cmd) }
}

/// Runs a command line through this machine's shell.
pub fn local_shell_cmd(cmd: String, shell: LocalShell) -> (t: Task)
    ensures
        t@ == shell_task(cmd@, shell),
{
    let mut args: Vec<String> = Vec::new();
    match shell {
        LocalShell::Posix => {
            args.push(lit("-c"));
            args.push(cmd);
            assert(args.deep_view() =~= seq!["-c"@, cmd@]);
            Task::Run { program: lit("sh"), args }
        },
        LocalShell::PowerShell => {
            args.push(lit("-Command"));
            args.push(cmd);
            assert(args.deep_view() =~= seq!["-Command"@, cmd@]);
            Task::Run { program: lit("powershell"), args }
        },
    }
}

/// Runs a shell script on the remote host, or through the local shell.
pub fn run_script(conn: &Connection, shell: LocalShell, script: String) -> (t: Task)
    ensures
        t@ == script_task(conn, shell, script@),
{
    if conn.is_remote() {
        run_ssh(conn, script)
    } else {
        local_shell_cmd(script, shell)
    }
}

/// Runs a program with arguments locally, or a command line remotely.
pub fn run_on_target(conn: &Connection, local_cmd: &str, local_args: Vec<String>, remote_cmd: String) -> (t: Task)
    ensures
        t@ == target_task(conn, local_cmd@, local_args.deep_view(), remote_cmd@),
{
    if conn.is_remote() {
        run_ssh(conn, remote_cmd)
    } else {
        Task::Run { program: lit(local_cmd), args: local_args }
    }
}


/// Commands follow the connection: with a remote host every command line
/// goes to `ssh` aimed at that host, with none it runs on this machine and
/// never through `ssh`.
pub proof fn law_tasks_follow_connection(
    conn: &Connection,
    shell: LocalShell,
    script: Seq<char>,
    program: Seq<char>,
    args: Seq<Seq<char>>,
)
    ensures
        conn.remote() ==> (script_task(conn, shell, script) matches TaskView::Ssh { args: a } && a[6]
            == conn.target() && a[7] == script),
        conn.remote() ==> (target_task(conn, program, args, script) matches TaskView::Ssh {
            args: a,
        } && a[6] == conn.target() && a[7] == script),
        !conn.remote() ==> (script_task(conn, shell, script) is Run),
        !conn.remote() ==> target_task(conn, program, args, script) == (TaskView::Run {
            program,
            args,
        }),
{
}

} // verus!
