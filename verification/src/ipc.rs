//! The request/response vocabulary between client and daemon, and the
//! client-side connection settings.  The transport itself (Unix sockets,
//! serialization) lives in the embedding program.

use vstd::prelude::*;

verus! {

use vstd::string::StringExecFns;

/// What a client may ask of the daemon.
#[derive(Debug, Clone)]
pub enum Request {
    /// Request resources for the calling user.
    RequestResources { cpu: u32, mem: String },
    /// Release resources for the calling user.
    Release,
    /// Get status of the current allocation.
    Status,
}

/// What the daemon answers.
#[derive(Debug, Clone)]
pub enum Response {
    /// The request was carried out.
    Success { message: String },
    /// The request was refused or failed.
    Error { error: String },
    /// The caller's current allocation.
    StatusInfo { allocated_cpu: u32, allocated_mem: String },
}

/// Implemented by whoever turns requests into responses; the daemon
/// injects its own logic through this.
pub trait RequestHandler {
    fn handle_request(&mut self, request: Request, uid: u32) -> Response;
}

/// Connection settings of an IPC client.
pub struct IpcClient {
    pub socket_path: String,
    pub timeout_secs: u64,
}

impl IpcClient {
    /// A client with the default five-second timeout.
    pub fn new(socket_path: &str) -> (r: IpcClient)
        ensures
            r.socket_path@ == socket_path@,
            r.timeout_secs == 5,
    {
        IpcClient { socket_path: String::from_str(socket_path), timeout_secs: 5 }
    }

    /// A client with a caller-chosen timeout in seconds.
    pub fn with_timeout(socket_path: &str, timeout_secs: u64) -> (r: IpcClient)
        ensures
            r.socket_path@ == socket_path@,
            r.timeout_secs == timeout_secs,
    {
        IpcClient { socket_path: String::from_str(socket_path), timeout_secs }
    }
}

/// Prefixes a daemon-communication failure with the likely causes.
pub fn format_daemon_error(base_msg: &str) -> (r: String)
    ensures
        r@ == base_msg@
            + "\n\nPossible causes:\n  - Daemon not running (is fairshared started?)\n  - Socket permissions (check /run/fairshare.sock)\n  - Socket path incorrect"@,
{
    String::from_str(base_msg).concat(
        "\n\nPossible causes:\n  - Daemon not running (is fairshared started?)\n  - Socket permissions (check /run/fairshare.sock)\n  - Socket path incorrect",
    )
}

} // verus!
