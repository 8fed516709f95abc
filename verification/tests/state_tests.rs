use bootstreep_dashboard::profiles::{ProfileState, ServerProfile};
use bootstreep_dashboard::pty::{pty_shell, PtyState, SessionTable};
use bootstreep_dashboard::task::Connection;

fn profile(id: &str, host: &str) -> ServerProfile {
    ServerProfile {
        id: id.to_string(),
        name: format!("n-{}", id),
        host: host.to_string(),
        user: "u".to_string(),
        port: 22,
        icon: "*".to_string(),
    }
}

#[test]
fn start_up_profiles() {
    let s = ProfileState::from_stored(None);
    assert_eq!(s.profiles.len(), 1);
    assert_eq!(s.profiles[0].id, "local");
    assert_eq!(s.profiles[0].name, "Lokal");
    assert_eq!(s.profiles[0].icon, "🖥️");
    assert_eq!(s.active_id, "local");
    let s = ProfileState::from_stored(Some(vec![]));
    assert!(s.profiles.is_empty());
    assert_eq!(s.active_id, "");
    let s = ProfileState::from_stored(Some(vec![profile("p1", "h1"), profile("p2", "h2")]));
    assert_eq!(s.active_id, "p1");
}

#[test]
fn add_switch_and_read_back() {
    let mut s = ProfileState::from_stored(None);
    let mut conn = Connection::new();
    let id = s.profile_add("p9".to_string(), "Pi".to_string(), "10.0.0.9".to_string(), "pi".to_string(), 2222, "π".to_string());
    assert_eq!(id, "p9");
    assert_eq!(s.profile_list().len(), 2);
    let p = s.profile_switch("p9", &mut conn).unwrap();
    assert_eq!(p.port, 2222);
    assert_eq!(conn.host, "10.0.0.9");
    assert_eq!(conn.user, "pi");
    assert_eq!(s.profile_get_active().unwrap().id, "p9");
    match s.profile_switch("nope", &mut conn) {
        Err(e) => assert_eq!(e, "Profil nicht gefunden"),
        Ok(_) => panic!("unknown profile"),
    }
    assert_eq!(s.active_id, "p9");
}

#[test]
fn remove_moves_the_active_profile() {
    let mut s = ProfileState::from_stored(Some(vec![profile("local", ""), profile("a", "h"), profile("a", "h2"), profile("b", "x")]));
    let mut conn = Connection::new();
    s.profile_switch("a", &mut conn).unwrap();
    assert_eq!(conn.host, "h");
    match s.profile_remove("local") {
        Err(e) => assert_eq!(e, "Lokales Profil kann nicht gelöscht werden"),
        Ok(_) => panic!("local must stay"),
    }
    assert_eq!(s.profiles.len(), 4);
    s.profile_remove("a").unwrap();
    let ids: Vec<&str> = s.profiles.iter().map(|p| p.id.as_str()).collect();
    assert_eq!(ids, vec!["local", "b"]);
    assert_eq!(s.active_id, "local");
    s.profile_remove("b").unwrap();
    assert_eq!(s.active_id, "local");
    match s.profile_get_active() {
        Ok(p) => assert_eq!(p.id, "local"),
        Err(_) => panic!("local is active"),
    }
}

#[test]
fn active_profile_may_be_missing() {
    let mut s = ProfileState::from_stored(Some(vec![profile("x", "h")]));
    s.active_id = "gone".to_string();
    match s.profile_get_active() {
        Err(e) => assert_eq!(e, "Kein aktives Profil"),
        Ok(_) => panic!("no such profile"),
    }
}

#[test]
fn connection_is_trimmed() {
    let mut c = Connection::new();
    let info = c.get_connection();
    assert_eq!(info.mode, "local");
    let info = c.set_connection("  10.0.0.2 ", " root\n");
    assert_eq!(info.host, "10.0.0.2");
    assert_eq!(info.user, "root");
    assert_eq!(info.mode, "remote");
    assert!(c.is_remote());
    let info = c.set_connection("   ", "x");
    assert_eq!(info.mode, "local");
}

#[test]
fn session_table_reads_back_writes() {
    let mut t: SessionTable<u32> = SessionTable::new();
    t.insert("a".to_string(), 1);
    t.insert("b".to_string(), 2);
    t.insert("a".to_string(), 3);
    assert_eq!(t.get("a"), Some(&3));
    assert_eq!(t.get("b"), Some(&2));
    assert_eq!(t.get("c"), None);
    assert_eq!(t.remove("a"), Some(3));
    assert_eq!(t.get("a"), None);
    assert_eq!(t.remove("a"), None);
    assert_eq!(t.get("b"), Some(&2));
}

#[test]
fn pty_sessions_are_found_until_closed() {
    let mut s: PtyState<&str, u8> = PtyState::new();
    s.register("s1".to_string(), "master", 9);
    assert_eq!(s.allow_pty_write("s1"), Ok(&9));
    assert_eq!(s.allow_pty_resize("s1"), Ok(&"master"));
    assert_eq!(s.allow_pty_write("s2"), Err("Session not found".to_string()));
    s.allow_pty_close("s1");
    assert_eq!(s.allow_pty_write("s1"), Err("Session not found".to_string()));
    s.allow_pty_close("s1");
}

#[test]
fn pty_shell_defaults() {
    assert_eq!(pty_shell(None, false), "/bin/bash");
    assert_eq!(pty_shell(None, true), "powershell.exe");
    assert_eq!(pty_shell(Some("/bin/zsh".to_string()), false), "/bin/zsh");
}

#[test]
fn only_sessions_opened_and_not_closed_are_found() {
    let mut s: PtyState<u8, u8> = PtyState::new();
    s.register("a".to_string(), 1, 10);
    s.register("b".to_string(), 2, 20);
    s.allow_pty_close("a");
    s.register("a2".to_string(), 3, 30);
    assert_eq!(s.allow_pty_write("a"), Err("Session not found".to_string()));
    assert_eq!(s.allow_pty_resize("a"), Err("Session not found".to_string()));
    assert_eq!(s.allow_pty_write("never"), Err("Session not found".to_string()));
    assert_eq!(s.allow_pty_write("b"), Ok(&20));
    assert_eq!(s.allow_pty_resize("a2"), Ok(&3));
    s.register("a".to_string(), 4, 40);
    assert_eq!(s.allow_pty_write("a"), Ok(&40));
}
