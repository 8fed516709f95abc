use bootstreep_dashboard::commands::{
    docker_action, docker_exec, docker_list, docker_logs, file_delete, file_list, file_mkdir, file_read,
    file_rename, file_write, firewall_action, package_action, process_kill, run_command,
    service_action, system_power, allow_jellyfin_control, allow_arr_stack, allow_ollama_models,
    get_uptime, crontab_save, network_info, NETWORK_SCRIPT, UPTIME_COMMAND, DOCKER_PS_FORMAT,
};
use bootstreep_dashboard::path_sandbox::{allowed_prefixes, HostOs, LinkProbe, PathProbe};
use bootstreep_dashboard::task::{local_shell_cmd, Connection, LocalShell, Task};

fn local() -> Connection {
    Connection::new()
}

fn remote() -> Connection {
    let mut c = Connection::new();
    c.host = "10.0.0.2".to_string();
    c.user = "admin".to_string();
    c
}

fn run_parts(t: &Task) -> (String, Vec<String>) {
    match t {
        Task::Run { program, args } => (program.clone(), args.clone()),
        _ => panic!("not a local run"),
    }
}

fn ssh_command(t: &Task) -> String {
    match t {
        Task::Ssh { args } => {
            assert_eq!(args.len(), 8);
            assert_eq!(
                args[..6].to_vec(),
                vec!["-o", "BatchMode=yes", "-o", "ConnectTimeout=8", "-o", "StrictHostKeyChecking=accept-new"]
            );
            assert_eq!(args[6], "admin@10.0.0.2");
            args[7].clone()
        },
        _ => panic!("not an ssh run"),
    }
}

#[test]
fn docker_action_checks_the_action() {
    assert!(matches!(docker_action(&local(), "explode", "web"), Err(e) if e == "Invalid action"));
    let t = docker_action(&local(), "start", "web").unwrap();
    assert_eq!(run_parts(&t), ("docker".to_string(), vec!["start".to_string(), "web".to_string()]));
    let t = docker_action(&remote(), "stop", "my web").unwrap();
    assert_eq!(ssh_command(&t), "docker stop 'my web'");
}

#[test]
fn docker_list_quotes_its_template_remotely() {
    let t = docker_list(&remote());
    assert_eq!(ssh_command(&t), format!("docker ps -a --format '{}'", DOCKER_PS_FORMAT));
    let (p, a) = run_parts(&docker_list(&local()));
    assert_eq!(p, "docker");
    assert_eq!(a, vec!["ps", "-a", "--format", DOCKER_PS_FORMAT]);
}

#[test]
fn docker_logs_defaults_to_a_hundred_lines() {
    let (_, a) = run_parts(&docker_logs(&local(), "db", None));
    assert_eq!(a, vec!["logs", "--tail", "100", "db"]);
    let t = docker_logs(&remote(), "db", Some(5));
    assert_eq!(ssh_command(&t), "docker logs --tail 5 db 2>&1");
}

#[test]
fn docker_exec_quotes_name_and_command() {
    let t = docker_exec(&remote(), "web", "ls -la");
    assert_eq!(ssh_command(&t), "docker exec web sh -c 'ls -la'");
    let (_, a) = run_parts(&docker_exec(&local(), "web", "ls -la"));
    assert_eq!(a, vec!["exec", "web", "sh", "-c", "ls -la"]);
}

#[test]
fn service_action_uses_sudo_only_remotely() {
    assert!(matches!(service_action(&local(), "mask", "ssh"), Err(e) if e == "Invalid action"));
    let (p, a) = run_parts(&service_action(&local(), "restart", "ssh").unwrap());
    assert_eq!((p.as_str(), a), ("systemctl", vec!["restart".to_string(), "ssh".to_string()]));
    let t = service_action(&remote(), "enable", "nginx").unwrap();
    assert_eq!(ssh_command(&t), "sudo systemctl enable nginx");
}

#[test]
fn run_command_goes_through_a_login_shell_remotely() {
    let t = run_command(&remote(), "uptime; df", LocalShell::Posix);
    assert_eq!(ssh_command(&t), "bash -lc 'uptime; df'");
    let (p, a) = run_parts(&run_command(&local(), "uptime", LocalShell::Posix));
    assert_eq!((p.as_str(), a), ("sh", vec!["-c".to_string(), "uptime".to_string()]));
    let (p, a) = run_parts(&local_shell_cmd("dir".to_string(), LocalShell::PowerShell));
    assert_eq!((p.as_str(), a), ("powershell", vec!["-Command".to_string(), "dir".to_string()]));
}

fn linux_dirs() -> Vec<String> {
    allowed_prefixes(None, HostOs::Linux, None)
}

fn present(canonical: &str) -> Option<PathProbe> {
    Some(PathProbe::Present { canonical: Some(canonical.to_string()), link: LinkProbe::NotLink })
}

fn missing(ancestor: &str, rest: &[&str]) -> Option<PathProbe> {
    Some(PathProbe::Missing {
        ancestor: Some(ancestor.to_string()),
        rest: rest.iter().map(|s| s.to_string()).collect(),
    })
}

#[test]
fn file_commands_pick_local_or_remote_work() {
    let d = linux_dirs();
    assert!(matches!(file_read(&local(), "/etc/hosts", &d, present("/etc/hosts")),
        Ok(Task::ReadFile { path }) if path == "/etc/hosts"));
    assert_eq!(ssh_command(&file_read(&remote(), "/etc/my hosts", &d, None).unwrap()), "cat -- '/etc/my hosts'");
    assert_eq!(ssh_command(&file_delete(&remote(), "/tmp/x", &d, None).unwrap()), "rm -rf -- /tmp/x");
    assert_eq!(ssh_command(&file_rename(&remote(), "/a", "/b c", &d, None, None).unwrap()), "mv -- /a '/b c'");
    assert_eq!(ssh_command(&file_mkdir(&remote(), "/root/n", &d, None).unwrap()), "mkdir -p -- /root/n");
    assert!(matches!(file_list(&local(), "/srv", &d, present("/srv")),
        Ok(Task::ListDir { path }) if path == "/srv"));
    let script = ssh_command(&file_list(&remote(), "/srv", &d, None).unwrap());
    assert!(script.starts_with("for f in /srv/*; do"));
    assert!(script.contains("for f in /srv/.*; do"));
    match file_write(&remote(), "/tmp/f", "data", &d, None) {
        Ok(Task::SshWithInput { args, input }) => {
            assert_eq!(args[7], "cat > /tmp/f");
            assert_eq!(input, "data");
        },
        _ => panic!("expected input for ssh"),
    }
    assert!(matches!(file_write(&local(), "/tmp/f", "d", &d, present("/tmp/f")),
        Ok(Task::WriteFile { path, content }) if path == "/tmp/f" && content == "d"));
}

#[test]
fn local_file_commands_stay_in_allowed_directories() {
    let d = linux_dirs();
    let outside = |p: &str| format!("Path {} is outside allowed directories: {:?}", p, d);
    assert_eq!(file_list(&local(), "/root", &d, present("/root")).err(), Some(outside("/root")));
    assert_eq!(
        file_write(&local(), "/root/.ssh/authorized_keys", "k", &d, present("/root/.ssh/authorized_keys")).err(),
        Some(outside("/root/.ssh/authorized_keys"))
    );
    assert_eq!(file_read(&local(), "/etc/../root/x", &d, present("/root/x")).err(), Some(outside("/etc/../root/x")));
    assert_eq!(file_delete(&local(), "/", &d, present("/")).err(), Some(outside("/")));
    // a link inside an allowed directory whose target leaves them
    let escape = Some(PathProbe::Present {
        canonical: Some("/tmp/l".to_string()),
        link: LinkProbe::Target { target: "/root".to_string(), resolved: Some("/root".to_string()) },
    });
    assert_eq!(file_read(&local(), "/tmp/l", &d, escape).err(), Some("Symlink escape detected".to_string()));
    // what does not exist can be made where its nearest existing directory is allowed
    assert!(matches!(file_mkdir(&local(), "/tmp/a/b", &d, missing("/tmp", &["a", "b"])),
        Ok(Task::CreateDirAll { path }) if path == "/tmp/a/b"));
    assert!(matches!(file_write(&local(), "/srv/new.txt", "x", &d, missing("/srv", &["new.txt"])),
        Ok(Task::WriteFile { .. })));
    assert_eq!(file_mkdir(&local(), "/root/n", &d, missing("/root", &["n"])).err(), Some(outside("/root/n")));
    assert_eq!(
        file_mkdir(&local(), "/tmp/a/..", &d, missing("/tmp", &["a", ".."])).err(),
        Some("Invalid or non-existent path: /tmp/a/..".to_string())
    );
    // but nothing missing can be read, listed or removed
    assert_eq!(
        file_read(&local(), "/tmp/nope", &d, missing("/tmp", &["nope"])).err(),
        Some("Invalid or non-existent path: /tmp/nope".to_string())
    );
    assert_eq!(
        file_delete(&local(), "/tmp/nope", &d, None).err(),
        Some("Invalid or non-existent path: /tmp/nope".to_string())
    );
    // a rename judges its source first, then its destination
    assert!(matches!(file_rename(&local(), "/tmp/a", "/tmp/b", &d, present("/tmp/a"), missing("/tmp", &["b"])),
        Ok(Task::RenamePath { from, to }) if from == "/tmp/a" && to == "/tmp/b"));
    assert_eq!(
        file_rename(&local(), "/root/a", "/tmp/b", &d, present("/root/a"), missing("/tmp", &["b"])).err(),
        Some(outside("/root/a"))
    );
    assert_eq!(
        file_rename(&local(), "/tmp/a", "/root/b", &d, present("/tmp/a"), missing("/root", &["b"])).err(),
        Some(outside("/root/b"))
    );
}

#[test]
fn firewall_and_package_actions_are_checked() {
    assert!(matches!(firewall_action(&local(), "flush", "x"), Err(e) if e == "Invalid firewall action"));
    let (p, a) = run_parts(&firewall_action(&local(), "allow", "22/tcp").unwrap());
    assert_eq!((p.as_str(), a), ("sudo", vec!["ufw".to_string(), "allow".to_string(), "22/tcp".to_string()]));
    assert_eq!(ssh_command(&firewall_action(&remote(), "deny", "80").unwrap()), "sudo ufw deny 80");
    assert!(matches!(package_action(&local(), "vim", "purge", LocalShell::Posix), Err(e) if e == "Invalid package action"));
    let t = package_action(&remote(), "vim", "install", LocalShell::Posix).unwrap();
    assert_eq!(
        ssh_command(&t),
        "if command -v apt >/dev/null 2>&1; then sudo apt install -y vim; elif command -v dnf >/dev/null 2>&1; then sudo dnf install -y vim; elif command -v pacman >/dev/null 2>&1; then sudo pacman -S --noconfirm vim; else echo \"Kein Paketmanager\"; fi"
    );
}

#[test]
fn service_tables_refuse_unknown_actions() {
    assert!(matches!(allow_jellyfin_control(&local(), "x", LocalShell::Posix), Err(e) if e == "Invalid Jellyfin action"));
    assert!(matches!(allow_arr_stack(&local(), "x", LocalShell::Posix), Err(e) if e == "Invalid Arr action"));
    assert!(matches!(allow_ollama_models(&local(), "x", LocalShell::Posix), Err(e) if e == "Invalid Ollama action"));
    let t = allow_jellyfin_control(&remote(), "restart", LocalShell::Posix).unwrap();
    assert_eq!(ssh_command(&t), "sudo systemctl restart jellyfin");
    let t = allow_ollama_models(&remote(), "pull", LocalShell::Posix).unwrap();
    assert_eq!(ssh_command(&t), "echo 'Pull über UI oder ollama pull <model> starten'");
}

#[test]
fn power_does_not_wait_remotely() {
    assert!(matches!(system_power(&local(), "hibernate", LocalShell::Posix), Err(e) if e == "Invalid power action"));
    match system_power(&remote(), "poweroff", LocalShell::Posix).unwrap() {
        Task::SshDetached { args, reply } => {
            assert_eq!(args[7], "sudo shutdown -h now");
            assert_eq!(reply, "poweroff initiated");
        },
        _ => panic!("expected a detached ssh run"),
    }
    let (_, a) = run_parts(&system_power(&local(), "reboot", LocalShell::Posix).unwrap());
    assert_eq!(a, vec!["-c", "sudo reboot"]);
}

#[test]
fn kill_sends_term_unless_told() {
    let (_, a) = run_parts(&process_kill(&local(), 1234, None, LocalShell::Posix));
    assert_eq!(a[1], "kill -TERM 1234");
    assert_eq!(ssh_command(&process_kill(&remote(), 7, Some("9"), LocalShell::Posix)), "kill -9 7");
}

#[test]
fn remote_only_reads_and_scripts() {
    assert!(get_uptime(&local()).is_none());
    assert_eq!(ssh_command(&get_uptime(&remote()).unwrap()), UPTIME_COMMAND);
    assert_eq!(ssh_command(&network_info(&remote(), LocalShell::Posix)), NETWORK_SCRIPT);
    assert!(matches!(crontab_save(&local(), "* * * * * true"), Task::LoadCrontab { .. }));
    match crontab_save(&remote(), "x") {
        Task::SshWithInput { args, input } => {
            assert_eq!(args[7], "crontab -");
            assert_eq!(input, "x");
        },
        _ => panic!("expected input for ssh"),
    }
}

#[test]
fn the_host_alone_is_the_target_without_a_user() {
    let mut c = Connection::new();
    c.host = "box".to_string();
    match docker_list(&c) {
        Task::Ssh { args } => assert_eq!(args[6], "box"),
        _ => panic!("expected ssh"),
    }
}
