//! Verified core of a homelab dashboard backend: command planning for local
//! and SSH targets, parsing of the text that system tools print, path
//! sandboxing, server profiles and terminal session bookkeeping.
use vstd::prelude::*;

pub mod text;
pub mod shell;
pub mod task;
pub mod commands;
pub mod parse;
pub mod files;
pub mod path_sandbox;
pub mod profiles;
pub mod pty;
pub mod ports;
pub mod stats;
pub mod ids;
pub mod homelab;

pub use homelab::{ArrHealth, SyncthingFolder, WireGuardPeer};
pub use parse::{ContainerInfo, DockerStat, FileEntry, ServiceInfo, UserEntry};
pub use ports::PortCheck;
pub use profiles::{ConnectionInfo, ServerProfile};
pub use pty::PTYSession;
pub use task::{Connection, LocalShell, Task};

verus! {

} // verus!
