//! Port checks: which host is probed, the address of each probe, and the
//! homelab service that each well-known port belongs to.
use vstd::prelude::*;
use crate::task::{lit, Connection};
use crate::text::{decimal, decimal_string};

verus! {

broadcast use vstd::string::group_string_axioms;

/// The outcome of probing one port.
pub struct PortCheck {
    pub port: u16,
    pub open: bool,
    pub service: String,
}

/// The homelab service on a port, or "Unknown".
pub open spec fn service_name(port: u16) -> Seq<char> {
    if port == 22 {
        "SSH"@
    } else if port == 53 {
        "Pi-hole DNS"@
    } else if port == 80 {
        "HTTP"@
    } else if port == 443 {
        "HTTPS"@
    } else if port == 3000 {
        "Hermes"@
    } else if port == 3001 {
        "Uptime Kuma"@
    } else if port == 445 {
        "Samba"@
    } else if port == 51820 {
        "WireGuard"@
    } else if port == 8080 {
        "Websurfx"@
    } else if port == 8081 {
        "Pi-hole"@
    } else if port == 8082 {
        "Nextcloud"@
    } else if port == 8087 {
        "AMP"@
    } else if port == 8096 {
        "Jellyfin"@
    } else if port == 8384 {
        "Syncthing"@
    } else if port == 8989 {
        "Sonarr"@
    } else if port == 7878 {
        "Radarr"@
    } else if port == 9696 {
        "Prowlarr"@
    } else if port == 6767 {
        "Bazarr"@
    } else if port == 9050 {
        "Tor"@
    } else if port == 9443 {
        "Nextcloud SSL"@
    } else if port == 11434 {
        "Ollama"@
    } else {
        "Unknown"@
    }
}

/// The name of the service on a port.
pub fn port_service(port: u16) -> (r: String)
    ensures
        r@ == service_name(port),
{
    let s = if port == 22 {
        "SSH"
    } else if port == 53 {
        "Pi-hole DNS"
    } else if port == 80 {
        "HTTP"
    } else if port == 443 {
        "HTTPS"
    } else if port == 3000 {
        "Hermes"
    } else if port == 3001 {
        "Uptime Kuma"
    } else if port == 445 {
        "Samba"
    } else if port == 51820 {
        "WireGuard"
    } else if port == 8080 {
        "Websurfx"
    } else if port == 8081 {
        "Pi-hole"
    } else if port == 8082 {
        "Nextcloud"
    } else if port == 8087 {
        "AMP"
    } else if port == 8096 {
        "Jellyfin"
    } else if port == 8384 {
        "Syncthing"
    } else if port == 8989 {
        "Sonarr"
    } else if port == 7878 {
        "Radarr"
    } else if port == 9696 {
        "Prowlarr"
    } else if port == 6767 {
        "Bazarr"
    } else if port == 9050 {
        "Tor"
    } else if port == 9443 {
        "Nextcloud SSL"
    } else if port == 11434 {
        "Ollama"
    } else {
        "Unknown"
    };
    lit(s)
}

/// The host whose ports are probed: the remote host, else the loopback.
pub open spec fn probe_host(conn: &Connection) -> Seq<char> {
    if conn.remote() {
        conn.host@
    } else {
        "127.0.0.1"@
    }
}

/// The host whose ports are probed.
pub fn port_check_host(conn: &Connection) -> (r: String)
    ensures
        r@ == probe_host(conn),
{
    if conn.is_remote() {
        conn.host.clone()
    } else {
        lit("127.0.0.1")
    }
}

/// `host:port`, the address to resolve for a probe.
pub fn port_address(host: &str, port: u16) -> (r: String)
    ensures
        r@ == host@ + seq![':'] + decimal(port as nat),
{
    let mut r = lit(host);
    r.append(":");
    let d = decimal_string(port as u64);
    r.append(d.as_str());
    proof {
        reveal_strlit(":");
    }
    r
}

/// The results of probing `ports`, where `open[i]` tells whether a
/// connection to `ports[i]` succeeded.
pub fn port_checks(ports: &Vec<u16>, open: &Vec<bool>) -> (r: Vec<PortCheck>)
    requires
        ports.len() == open.len(),
    ensures
        r.len() == ports.len(),
        forall|i: int|
            #![trigger r[i]]
            0 <= i < r.len() ==> r[i].port == ports[i] && r[i].open == open[i] && r[i].service@
                == service_name(ports[i]),
{
    let mut r: Vec<PortCheck> = Vec::new();
    for i in 0..ports.len()
        invariant
            ports.len() == open.len(),
            r.len() == i,
            forall|k: int|
                #![trigger r[k]]
                0 <= k < i ==> r[k].port == ports[k] && r[k].open == open[k] && r[k].service@
                    == service_name(ports[k]),
    {
        let pc = PortCheck { port: ports[i], open: open[i], service: port_service(ports[i]) };
        let ghost before = r@;
        r.push(pc);
        assert forall|k: int| #![trigger r[k]] 0 <= k < i + 1 implies r[k].port == ports[k]
            && r[k].open == open[k] && r[k].service@ == service_name(ports[k]) by {
            if k < i {
                assert(r[k] == before[k]);
            }
        }
    }
    r
}

} // verus!
