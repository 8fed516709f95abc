use bootstreep_dashboard::path_sandbox::{
    allowed_prefixes, canonicalize, check_access, join_path, link_target_path, path_starts_with,
    validate_remote_path, HostOs, LinkProbe, PathProbe,
};

#[test]
fn remote_paths_are_checked_in_order() {
    assert_eq!(validate_remote_path("/srv/data"), Ok("/srv/data".to_string()));
    assert_eq!(validate_remote_path("/srv/../etc"), Err("Path traversal detected".to_string()));
    assert_eq!(validate_remote_path("/srv/it's"), Err("Invalid characters in path".to_string()));
    assert_eq!(validate_remote_path("a\"b"), Err("Invalid characters in path".to_string()));
    assert_eq!(validate_remote_path("a`b"), Err("Invalid characters in path".to_string()));
    assert_eq!(validate_remote_path("a\nb"), Err("Control characters not allowed in path".to_string()));
    assert_eq!(validate_remote_path("a\u{85}b"), Err("Control characters not allowed in path".to_string()));
    let long = "a".repeat(4097);
    assert_eq!(validate_remote_path(&long), Err("Path too long".to_string()));
    let ok = "a".repeat(4096);
    assert!(validate_remote_path(&ok).is_ok());
    let wide = "ä".repeat(2049);
    assert_eq!(validate_remote_path(&wide), Err("Path too long".to_string()));
    let quote_and_dots = "..'";
    assert_eq!(validate_remote_path(quote_and_dots), Err("Path traversal detected".to_string()));
}

#[test]
fn prefixes_come_from_the_configured_list() {
    assert_eq!(
        allowed_prefixes(None, HostOs::Linux, Some("/Users/a")),
        vec!["/home", "/opt", "/etc", "/var", "/srv", "/tmp", "/var/lib/docker"]
    );
    assert_eq!(allowed_prefixes(Some(" /data : /mnt ::"), HostOs::Linux, None), vec!["/data", "/mnt"]);
    assert_eq!(allowed_prefixes(Some(" /data : /mnt ::"), HostOs::MacOs, None), vec!["/data", "/mnt"]);
    assert_eq!(allowed_prefixes(Some(" : "), HostOs::Linux, None).len(), 7);
}

#[test]
fn macos_defaults_start_with_the_home_directory() {
    assert_eq!(
        allowed_prefixes(None, HostOs::MacOs, Some("/Users/alice")),
        vec!["/Users/alice", "/opt/homebrew", "/usr/local", "/private/var", "/tmp"]
    );
    assert_eq!(
        allowed_prefixes(Some(""), HostOs::MacOs, None),
        vec!["/opt/homebrew", "/usr/local", "/private/var", "/tmp"]
    );
    assert_eq!(allowed_prefixes(None, HostOs::MacOs, Some("")).len(), 4);
}

#[test]
fn prefixes_match_whole_components() {
    assert!(path_starts_with("/home/alice", "/home"));
    assert!(path_starts_with("/home", "/home/"));
    assert!(!path_starts_with("/homework", "/home"));
    assert!(path_starts_with("/var//lib/./docker/x", "/var/lib/docker"));
    assert!(!path_starts_with("/var", "/var/lib"));
    assert!(path_starts_with("./a/b", "./a"));
    assert!(!path_starts_with("a/b", "/a"));
    for (p, b) in [("/home/alice", "/home"), ("/homework", "/home"), ("/a/./b", "/a/b"), ("./x", "x"), ("x", "./x")] {
        assert_eq!(path_starts_with(p, b), std::path::Path::new(p).starts_with(b), "{} {}", p, b);
    }
}

#[test]
fn canonicalize_confines_paths() {
    let prefixes = allowed_prefixes(None, HostOs::Linux, None);
    assert_eq!(
        canonicalize("/srv/x", &prefixes, Some("/srv/x".to_string()), LinkProbe::NotLink),
        Ok("/srv/x".to_string())
    );
    assert_eq!(
        canonicalize("nope", &prefixes, None, LinkProbe::NotLink),
        Err("Invalid or non-existent path: nope".to_string())
    );
    assert_eq!(
        canonicalize("/root/x", &prefixes, Some("/root/x".to_string()), LinkProbe::NotLink),
        Err(format!("Path /root/x is outside allowed directories: {:?}", prefixes))
    );
    assert_eq!(
        canonicalize("/tmp/l", &prefixes, Some("/tmp/t".to_string()), LinkProbe::Unreadable),
        Err("Cannot read symlink".to_string())
    );
    let escape = LinkProbe::Target { target: "/root".to_string(), resolved: Some("/root".to_string()) };
    assert_eq!(
        canonicalize("/tmp/l", &prefixes, Some("/tmp/t".to_string()), escape),
        Err("Symlink escape detected".to_string())
    );
    let lost = LinkProbe::Target { target: "/gone".to_string(), resolved: None };
    assert_eq!(
        canonicalize("/tmp/l", &prefixes, Some("/tmp/t".to_string()), lost),
        Err("Cannot resolve symlink".to_string())
    );
    let lost_rel = LinkProbe::Target { target: "gone".to_string(), resolved: None };
    assert_eq!(
        canonicalize("/tmp/l", &prefixes, Some("/tmp/t".to_string()), lost_rel),
        Err("Symlink escape".to_string())
    );
    let fine = LinkProbe::Target { target: "t".to_string(), resolved: Some("/tmp/t".to_string()) };
    assert_eq!(
        canonicalize("/tmp/l", &prefixes, Some("/tmp/t".to_string()), fine),
        Ok("/tmp/t".to_string())
    );
}

#[test]
fn join_matches_path_join() {
    for (b, t) in [("/tmp", "x"), ("/tmp/", "x"), ("/tmp", "/etc"), ("", "x"), ("a", "")] {
        let expect = std::path::Path::new(b).join(t);
        assert_eq!(join_path(b, t), expect.to_str().unwrap(), "{} {}", b, t);
    }
}

#[test]
fn link_targets_are_taken_from_the_link_directory() {
    for (link, target) in [("/tmp/l", "b"), ("/tmp/dir/l", "../x"), ("/l", "b"), ("l", "b"), ("/tmp/d/", "e"), ("/tmp/l", "/etc")] {
        let expect = std::path::Path::new(link).parent().unwrap().join(target);
        assert_eq!(link_target_path(link, target), expect.to_str().unwrap(), "{} {}", link, target);
    }
    assert_eq!(link_target_path("/tmp/l", "b"), "/tmp/b");
}

#[test]
fn a_relative_link_inside_an_allowed_directory_is_accepted() {
    let prefixes = allowed_prefixes(None, HostOs::Linux, None);
    let probe = PathProbe::Present {
        canonical: Some("/tmp/b".to_string()),
        link: LinkProbe::Target { target: "b".to_string(), resolved: Some("/tmp/b".to_string()) },
    };
    assert_eq!(check_access("/tmp/l", &prefixes, Some(probe), false), Ok("/tmp/b".to_string()));
}

#[test]
fn access_to_missing_paths() {
    let prefixes = allowed_prefixes(None, HostOs::Linux, None);
    let missing = |a: Option<&str>, rest: &[&str]| {
        Some(PathProbe::Missing { ancestor: a.map(|s| s.to_string()), rest: rest.iter().map(|s| s.to_string()).collect() })
    };
    assert_eq!(check_access("/tmp/n", &prefixes, missing(Some("/tmp"), &["n"]), true), Ok("/tmp/n".to_string()));
    assert_eq!(
        check_access("/tmp/n", &prefixes, missing(Some("/tmp"), &["n"]), false),
        Err("Invalid or non-existent path: /tmp/n".to_string())
    );
    assert_eq!(
        check_access("/opt/./n", &prefixes, missing(Some("/opt"), &[".", "n"]), true),
        Err("Invalid or non-existent path: /opt/./n".to_string())
    );
    assert_eq!(
        check_access("/root/n", &prefixes, missing(Some("/root"), &["n"]), true),
        Err(format!("Path /root/n is outside allowed directories: {:?}", prefixes))
    );
    assert_eq!(
        check_access("x", &prefixes, missing(None, &["x"]), true),
        Err("Invalid or non-existent path: x".to_string())
    );
    assert_eq!(check_access("x", &prefixes, None, true), Err("Invalid or non-existent path: x".to_string()));
    assert_eq!(
        check_access("/srv/a", &prefixes, Some(PathProbe::Present { canonical: Some("/srv/a".to_string()), link: LinkProbe::NotLink }), false),
        Ok("/srv/a".to_string())
    );
}
