use bootstreep_dashboard::files::{local_file_entry, parse_file_entries, sort_file_entries};

#[test]
fn remote_listing_is_parsed_and_sorted() {
    let out = "/srv/b.txt|regular file|12|2024-01-01 10:00:00|-rw-r--r--\n\
               /srv/Apps|directory|4096|2024-01-02|drwxr-xr-x\n\
               /srv/a.txt|regular empty file|x|2024|-rw-|extra\n\
               /srv/zeta|directory|4096|d|drwx------\n\
               bad|line";
    let e = parse_file_entries(out).unwrap();
    let names: Vec<&str> = e.iter().map(|x| x.name.as_str()).collect();
    assert_eq!(names, vec!["Apps", "zeta", "a.txt", "b.txt"]);
    assert!(e[0].is_dir);
    assert_eq!(e[0].size, 4096);
    assert_eq!(e[2].size, 0);
    assert_eq!(e[2].permissions, "-rw-|extra");
    assert_eq!(e[3].modified, "2024-01-01 10:00:00");
}

#[test]
fn sorting_is_stable_and_ignores_case() {
    let v = vec![
        local_file_entry("b".to_string(), false, 1, None),
        local_file_entry("B".to_string(), false, 2, None),
        local_file_entry("a".to_string(), false, 3, None),
        local_file_entry("dir".to_string(), true, 4, None),
    ];
    let s = sort_file_entries(v);
    let sizes: Vec<u64> = s.iter().map(|x| x.size).collect();
    assert_eq!(sizes, vec![4, 3, 1, 2]);
}

#[test]
fn local_entries_have_fixed_modes() {
    let d = local_file_entry("x".to_string(), true, 0, Some(1700000000));
    assert_eq!(d.permissions, "drwxr-xr-x");
    assert_eq!(d.modified, "1700000000");
    let f = local_file_entry("y".to_string(), false, 5, None);
    assert_eq!(f.permissions, "-rw-r--r--");
    assert_eq!(f.modified, "");
}
