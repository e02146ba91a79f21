//! Resource arbitration for shared multi-user Linux hosts.
//!
//! The crate has two load-bearing parts: the resource ledger in [`system`],
//! which decides whether a CPU/memory/disk request is admissible given the
//! host totals, configured reserves and the current allocation snapshot, and
//! the disk-quota engine in [`mounts`] and [`quota`], which resolves mount
//! points, encodes the two kernel quota record layouts and plans quota
//! get/set/enumerate calls.  Everything here is pure computation; reading
//! the mount table, talking to systemd and issuing the quota syscalls is
//! left to the embedding program.

pub mod cli;
pub mod daemon;
pub mod ipc;
pub mod mounts;
pub mod policy;
pub mod osusers;
pub mod quota;
pub mod utils;
pub mod state;
pub mod system;
pub mod systemd;
pub mod systemd_client;
