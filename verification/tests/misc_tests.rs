use bootstreep_dashboard::ids::{format_id, uuid_simple};
use bootstreep_dashboard::ports::{port_address, port_check_host, port_checks, port_service};
use bootstreep_dashboard::stats::{disk_usages, disk_used, first_disk, traffic_totals, DiskReading};
use bootstreep_dashboard::task::Connection;

#[test]
fn port_names_and_addresses() {
    assert_eq!(port_service(22), "SSH");
    assert_eq!(port_service(9443), "Nextcloud SSL");
    assert_eq!(port_service(11434), "Ollama");
    assert_eq!(port_service(1), "Unknown");
    assert_eq!(port_check_host(&Connection::new()), "127.0.0.1");
    let mut c = Connection::new();
    c.host = "nas".to_string();
    assert_eq!(port_check_host(&c), "nas");
    assert_eq!(port_address("nas", 8096), "nas:8096");
    let r = port_checks(&vec![80, 7], &vec![true, false]);
    assert_eq!(r.len(), 2);
    assert_eq!((r[0].port, r[0].open, r[0].service.as_str()), (80, true, "HTTP"));
    assert_eq!((r[1].port, r[1].open, r[1].service.as_str()), (7, false, "Unknown"));
}

#[test]
fn disk_and_traffic_numbers() {
    assert_eq!(disk_used(100, 40), 60);
    assert_eq!(disk_used(10, 11), u64::MAX);
    assert_eq!(first_disk(&vec![(100, 30), (5, 1)]), (70, 100));
    assert_eq!(first_disk(&vec![]), (0, 0));
    assert_eq!(traffic_totals(&vec![(1, 2), (10, 20)]), (11, 22));
    assert_eq!(traffic_totals(&vec![(u64::MAX, 0), (2, 0)]), (1, 0));
}

#[test]
fn disks_become_mounts_in_order() {
    let readings = vec![
        DiskReading { name: "/dev/sda1".to_string(), mount_point: "/".to_string(), total: 100, available: 40 },
        DiskReading { name: "tmpfs".to_string(), mount_point: "/run".to_string(), total: 0, available: 0 },
    ];
    let m = disk_usages(&readings);
    assert_eq!(m.len(), 2);
    assert_eq!((m[0].filesystem.as_str(), m[0].mount_point.as_str()), ("/dev/sda1", "/"));
    assert_eq!((m[0].total, m[0].used, m[0].available), (100, 60, 40));
    assert_eq!((m[1].filesystem.as_str(), m[1].total, m[1].used, m[1].available), ("tmpfs", 0, 0, 0));
    assert!(disk_usages(&vec![]).is_empty());
}

#[test]
fn ids_are_hex_seconds_and_padded_milliseconds() {
    assert_eq!(format_id(0x5f5e100, 7), "5f5e100-0007");
    assert_eq!(format_id(0, 999), "0-03e7");
    let id = uuid_simple();
    let (secs, millis) = id.split_once('-').unwrap();
    assert!(u64::from_str_radix(secs, 16).is_ok());
    assert_eq!(millis.len(), 4);
    assert!(u32::from_str_radix(millis, 16).unwrap() < 1000);
}

#[test]
fn every_homelab_port_has_its_service() {
    let table = [
        (22, "SSH"), (53, "Pi-hole DNS"), (80, "HTTP"), (443, "HTTPS"), (3000, "Hermes"),
        (3001, "Uptime Kuma"), (445, "Samba"), (51820, "WireGuard"), (8080, "Websurfx"),
        (8081, "Pi-hole"), (8082, "Nextcloud"), (8087, "AMP"), (8096, "Jellyfin"),
        (8384, "Syncthing"), (8989, "Sonarr"), (7878, "Radarr"), (9696, "Prowlarr"),
        (6767, "Bazarr"), (9050, "Tor"), (9443, "Nextcloud SSL"), (11434, "Ollama"),
    ];
    for (port, name) in table {
        assert_eq!(port_service(port), name);
    }
}
