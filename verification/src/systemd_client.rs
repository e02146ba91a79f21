//! Naming and unit conventions of the cgroup-slice backend: slice and scope
//! unit names, the quota unit the slice manager expects, and the shape of a
//! slice status report.  The DBus/CLI surface that applies them lives in the
//! embedding program.

use vstd::prelude::*;

use crate::utils::spec_dec;

verus! {

use vstd::string::StringExecFns;

/// The tasks ceiling given to every managed slice.
pub const DEFAULT_TASKS_MAX: u64 = 4096;

/// One slice's reported state and limits.
#[derive(Debug, Clone)]
pub struct SliceInfo {
    pub name: String,
    pub active_state: String,
    pub load_state: String,
    pub sub_state: String,
    pub cpu_quota: Option<u64>,
    pub memory_max: Option<u64>,
    pub tasks_max: Option<u64>,
}

/// The managed slice unit name for a user.
pub open spec fn spec_slice_name(uid: nat) -> Seq<char> {
    "fairshare-"@ + spec_dec(uid) + ".slice"@
}

/// Builds the managed slice unit name for a user.
pub fn slice_name_for_uid(uid: u32) -> (r: String)
    ensures
        r@ == spec_slice_name(uid as nat),
{
    let mut s = String::from_str("fairshare-");
    s.append(crate::utils::u32_to_string(uid).as_str());
    s.append(".slice");
    proof {
        assert(s@ =~= spec_slice_name(uid as nat));
    }
    s
}

/// The transient scope unit name for a process moved under a user's slice.
pub open spec fn spec_scope_name(pid: nat) -> Seq<char> {
    "fairshare-pid-"@ + spec_dec(pid) + ".scope"@
}

/// Builds the transient scope unit name for a process.
pub fn scope_name_for_pid(pid: u32) -> (r: String)
    ensures
        r@ == spec_scope_name(pid as nat),
{
    let mut s = String::from_str("fairshare-pid-");
    s.append(crate::utils::u32_to_string(pid).as_str());
    s.append(".scope");
    proof {
        assert(s@ =~= spec_scope_name(pid as nat));
    }
    s
}

/// Converts a CPU count to the slice manager's quota unit: microseconds of
/// CPU time per hundred milliseconds, so one full core is 100000.
pub fn cpu_quota_usec(cpu: u32) -> (r: u64)
    ensures
        r == cpu * 100000,
{
    (cpu as u64) * 100000
}

} // verus!
