//! Records of the homelab services that the dashboard reports on.
use vstd::prelude::*;

verus! {

/// A peer of a WireGuard interface.
pub struct WireGuardPeer {
    pub public_key: String,
    pub endpoint: Option<String>,
    pub allowed_ips: Vec<String>,
    pub latest_handshake: Option<String>,
    pub transfer_rx: u64,
    pub transfer_tx: u64,
    pub persistent_keepalive: Option<u16>,
}

/// The health of one media service of the *arr stack.
pub struct ArrHealth {
    pub service: String,
    pub version: String,
    pub status: String,
    pub url: String,
}

/// A folder shared by Syncthing.
pub struct SyncthingFolder {
    pub id: String,
    pub label: String,
    pub path: String,
    pub status: String,
    pub need_bytes: u64,
    pub need_items: u64,
}

} // verus!
