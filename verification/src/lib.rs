//! Control plane of a single-host microVM runtime: callers request a VM with
//! boot/disk/network parameters; the library allocates network resources
//! (bridge-attached tap devices, IP addresses, host ports, NAT rules), plans
//! the calls into the external execution backend, and tracks every VM's
//! lifecycle in a shared registry.
//!
//! Host side effects (netlink, packet-filter rules, the backend process) are
//! carried out by the surrounding binary; this crate decides what to do,
//! keeps the registry consistent, and computes the exact rule and boot-line
//! strings the host must see.

pub mod api;
pub mod config;
pub mod image;
pub mod image_manager;
pub mod vm_manager;

use vstd::prelude::*;

verus! {

/// Command-line options of the runtime binary.
pub struct LambdoOpts {
    /// Config file path
    pub config: String,
}

/// Top-level error of the runtime binary.
pub enum LambdoError {
    Other(String),
    Unknown,
}

} // verus!
