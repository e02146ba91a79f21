//! The command vocabulary of the tool and the bounds on requestable
//! quantities.  Turning argv into these types is the front end's job; the
//! library only defines the shapes and the limits.

use vstd::prelude::*;

verus! {

/// Maximum number of CPUs that can be requested.
pub const MAX_CPU: u32 = 1000;

/// Maximum amount of memory (in GB) that can be requested.
pub const MAX_MEM: u32 = 10000;

/// Minimum number of CPUs that must be requested.
pub const MIN_CPU: u32 = 1;

/// Minimum amount of memory (in GB) that must be requested.
pub const MIN_MEM: u32 = 1;

/// A parsed invocation.
pub struct Cli {
    pub command: Commands,
}

/// The top-level commands.
pub enum Commands {
    /// Show system totals and all user allocations.
    Status,
    /// Request resources, or all remaining resources; the disk component
    /// is optional and additive.
    Request { cpu: Option<u32>, mem: Option<u32>, disk: Option<u32>, all: bool },
    /// Release all signed-out resources back to default.
    Release,
    /// Show the current user's resource allocation.
    Info,
    /// Admin operations (require root).
    Admin { sub: AdminSubcommands },
}

/// Administrator operations.
pub enum AdminSubcommands {
    /// Manage system service resource limits.
    Service { sub: ServiceSubcommands },
    /// Set up the global baseline for all users.
    Setup { cpu: u32, mem: u32, cpu_reserve: u32, mem_reserve: u32 },
    /// Remove the global defaults and all admin configuration.
    Uninstall { force: bool },
    /// Uninstall, then set up with new defaults.
    Reset { cpu: u32, mem: u32, cpu_reserve: u32, mem_reserve: u32, force: bool },
}

/// Per-service operations.
pub enum ServiceSubcommands {
    /// Allocate resources to a system service.
    Request { name: String, cpu: u32, mem: u32 },
    /// Release a service's resources.
    Release { name: String },
    /// Show one service's allocation.
    Info { name: String },
    /// List all service allocations.
    List,
}

} // verus!
