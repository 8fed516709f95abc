use bootstreep_dashboard::parse::{
    parse_container_list, parse_docker_stats, parse_process_list, parse_remote_stats,
    parse_service_list, parse_storage_mounts, parse_uptime, parse_user_list, ssh_probe_ok,
};

#[test]
fn containers_need_seven_fields() {
    let out = "abc\tweb\tnginx:1\tUp 2 hours\trunning\t0.0.0.0:80->80/tcp\t2024-01-01\nshort\tline\n\
               def\tdb\tpostgres\tExited (0)\texited\t\t2024-01-02";
    let cs = parse_container_list(out);
    assert_eq!(cs.len(), 2);
    assert_eq!(cs[0].id, "abc");
    assert_eq!(cs[0].name, "web");
    assert_eq!(cs[0].ports, "0.0.0.0:80->80/tcp");
    assert_eq!(cs[1].state, "exited");
    assert_eq!(cs[1].ports, "");
    assert_eq!(cs[1].created, "2024-01-02");
    assert!(parse_container_list("").is_empty());
}

#[test]
fn docker_stats_rows() {
    let out = "web\t0.50%\t10MiB / 1GiB\t1.0%\t1kB / 2kB\t0B / 0B\t3";
    let s = parse_docker_stats(out);
    assert_eq!(s.len(), 1);
    assert_eq!(s[0].cpu_percent, "0.50%");
    assert_eq!(s[0].mem_usage, "10MiB / 1GiB");
    assert_eq!(s[0].mem_limit, "1.0%");
    assert_eq!(s[0].pids, "3");
}

#[test]
fn services_drop_the_suffix_and_join_the_description() {
    let out = "ssh.service loaded active running OpenBSD Secure Shell server\n\
               cron.service   loaded   inactive dead Regular background program\n\
               bad line";
    let s = parse_service_list(out);
    assert_eq!(s.len(), 2);
    assert_eq!(s[0].name, "ssh");
    assert_eq!(s[0].active, "loaded");
    assert_eq!(s[0].status, "active");
    assert_eq!(s[0].description, "running OpenBSD Secure Shell server");
    assert_eq!(s[1].description, "dead Regular background program");
    let s = parse_service_list("foo.socket loaded active listening");
    assert_eq!(s[0].name, "foo.socket");
}

#[test]
fn users_without_a_numeric_uid_are_not_listed() {
    let u = parse_user_list("x:x:abc:1:i:/h:/s\nroot:x:0:0::/root:/bin/sh\nn:x:-1:0::/:/x");
    assert_eq!(u.len(), 1);
    assert_eq!(u[0].name, "root");
}

#[test]
fn users_keep_root_and_real_accounts() {
    let out = "root:x:0:0:root:/root:/bin/bash\n\
               daemon:x:1:1:daemon:/usr/sbin:/usr/sbin/nologin\n\
               alice:x:1000:1000:Alice,,,:/home/alice:/bin/zsh\n\
               broken:x:abc:5:::/bin/sh\n\
               short:x:1001";
    let u = parse_user_list(out);
    assert_eq!(u.len(), 2);
    assert_eq!(u[0].name, "root");
    assert_eq!(u[1].name, "alice");
    assert_eq!(u[1].uid, 1000);
    assert_eq!(u[1].info, "Alice,,,");
    assert_eq!(u[1].shell, "/bin/zsh");
}

#[test]
fn storage_rows_keep_the_percent_text() {
    let out = "/dev/sda1 / 100000 40000 60000 40%\n/dev/sdb1 /data 10 x 10 0%";
    let m = parse_storage_mounts(out);
    assert_eq!(m.len(), 2);
    assert_eq!(m[0].filesystem, "/dev/sda1");
    assert_eq!(m[0].total, 100000);
    assert_eq!(m[0].used, 40000);
    assert_eq!(m[0].available, 60000);
    assert_eq!(m[0].percent, "40");
    assert_eq!(m[1].used, 0);
}

#[test]
fn processes_join_the_command() {
    let out = "root 1 0.0 0.1 1000 200 ? Ss 10:00 0:01 /sbin/init splash\nshort line";
    let p = parse_process_list(out);
    assert_eq!(p.len(), 1);
    assert_eq!(p[0].pid, 1);
    assert_eq!(p[0].user, "root");
    assert_eq!(p[0].cpu, "0.0");
    assert_eq!(p[0].mem, "0.1");
    assert_eq!(p[0].command, "/sbin/init splash");
}

#[test]
fn remote_stats_take_the_last_line() {
    let out = "noise\n12.5|1000|2000|300|400|5|6|7|box|Linux 6.1";
    let s = parse_remote_stats(out).unwrap();
    assert_eq!(s.cpu, "12.5");
    assert_eq!(s.mem_used, 1000 * 1024);
    assert_eq!(s.mem_total, 2000 * 1024);
    assert_eq!(s.disk_used, 300);
    assert_eq!(s.disk_total, 400);
    assert_eq!(s.network_rx, 5);
    assert_eq!(s.network_tx, 6);
    assert_eq!(s.uptime, 7);
    assert_eq!(s.hostname, "box");
    assert_eq!(s.os, "Linux 6.1");
    match parse_remote_stats("1|2|3") {
        Err(e) => assert_eq!(e, "Unexpected stats format: 1|2|3"),
        Ok(_) => panic!("too few fields"),
    }
    let s = parse_remote_stats("x|y|2|a|b|c|d|e|h|o").unwrap();
    assert_eq!(s.mem_used, 0);
    assert_eq!(s.mem_total, 2048);
}

#[test]
fn remote_memory_wraps_like_a_release_build() {
    let big = u64::MAX / 1024 + 1;
    let out = format!("0|{}|0|0|0|0|0|0|h|o", big);
    let s = parse_remote_stats(&out).unwrap();
    assert_eq!(s.mem_used, big.wrapping_mul(1024));
}

#[test]
fn uptime_and_probe() {
    assert_eq!(parse_uptime(" 12345\n"), Ok(12345));
    assert_eq!(parse_uptime("abc"), Err("Invalid uptime: invalid digit found in string".to_string()));
    assert_eq!(parse_uptime(""), Err("Invalid uptime: cannot parse integer from empty string".to_string()));
    assert!(ssh_probe_ok("ok"));
    assert!(ssh_probe_ok("Warning...\nok"));
    assert!(!ssh_probe_ok("denied"));
}
