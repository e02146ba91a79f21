//! Planning for the cgroup-slice side of enforcement: caller identity
//! validation, limit bounds and unit conversion, and the exact content of
//! the configuration files that the setup step writes.  Applying a plan
//! (running the system's service manager, writing files) is the embedding
//! program's job.

use vstd::prelude::*;

use crate::cli::{MAX_CPU, MAX_MEM};
use crate::osusers::{current_uid, lookup_username};
use crate::system::spec_parse_u32;
use crate::utils::spec_dec;

verus! {

use vstd::string::StringSliceAdditionalSpecFns;
use vstd::string::StringExecFns;

/// Bytes per user-facing gigabyte: totals and user-facing quantities use
/// decimal scaling.
pub const GB_BYTES: u64 = 1000000000;

/// Lowest uid of a regular (non-system) account.
pub const FIRST_REGULAR_UID: u32 = 1000;

/// Why a request to change limits was refused before anything was applied.
#[derive(Clone, Copy, PartialEq, Eq, Structural, Debug)]
pub enum LimitsError {
    /// The CPU count exceeds the allowed maximum.
    CpuExceedsMax { requested: u32, max: u32 },
    /// The memory amount (in GB) exceeds the allowed maximum.
    MemExceedsMax { requested: u32, max: u32 },
}

/// The slice properties that enforce one user's limits.
#[derive(Debug)]
pub struct LimitPlan {
    pub cpu_quota_percent: u32,
    pub mem_max_bytes: u64,
}

/// Converts a decimal gigabyte count to bytes, reporting overflow.
pub fn gb_to_bytes(gb: u64) -> (r: Option<u64>)
    ensures
        match r {
            Option::Some(b) => b == gb * GB_BYTES,
            Option::None => gb * GB_BYTES > u64::MAX,
        },
{
    gb.checked_mul(GB_BYTES)
}

/// Converts a CPU count to a cgroup quota in percent, reporting overflow.
pub fn cpu_to_quota_percent(cpu: u32) -> (r: Option<u32>)
    ensures
        match r {
            Option::Some(q) => q == cpu * 100,
            Option::None => cpu * 100 > u32::MAX,
        },
{
    cpu.checked_mul(100)
}

/// Converts a per-user CPU default to the system-wide cap written to the
/// policy file (ten times the default), reporting overflow.
pub fn cpu_to_max_cap(cpu: u32) -> (r: Option<u32>)
    ensures
        match r {
            Option::Some(q) => q == cpu * 10,
            Option::None => cpu * 10 > u32::MAX,
        },
{
    cpu.checked_mul(10)
}

/// Validates a limit request against the hard caps and converts it to slice
/// properties: CPU as a percentage quota, memory as a decimal-GB byte
/// ceiling.  Values within the caps never overflow the conversions.
pub fn plan_set_user_limits(cpu: u32, mem: u32) -> (r: Result<LimitPlan, LimitsError>)
    ensures
        match r {
            Result::Ok(plan) => {
                &&& cpu <= MAX_CPU
                &&& mem <= MAX_MEM
                &&& plan.cpu_quota_percent == cpu * 100
                &&& plan.mem_max_bytes == mem * GB_BYTES
            },
            Result::Err(LimitsError::CpuExceedsMax { requested, max }) => {
                &&& cpu > MAX_CPU
                &&& requested == cpu
                &&& max == MAX_CPU
            },
            Result::Err(LimitsError::MemExceedsMax { requested, max }) => {
                &&& cpu <= MAX_CPU
                &&& mem > MAX_MEM
                &&& requested == mem
                &&& max == MAX_MEM
            },
        },
{
    if cpu > MAX_CPU {
        return Result::Err(LimitsError::CpuExceedsMax { requested: cpu, max: MAX_CPU });
    }
    if mem > MAX_MEM {
        return Result::Err(LimitsError::MemExceedsMax { requested: mem, max: MAX_MEM });
    }
    Result::Ok(LimitPlan { cpu_quota_percent: cpu * 100, mem_max_bytes: (mem as u64) * GB_BYTES })
}

/// Why a calling-user identity was rejected.
#[derive(Clone, Copy, PartialEq, Eq, Structural, Debug)]
pub enum UidError {
    /// The privilege-escalation uid variable does not hold a plain uid.
    InvalidFormat,
    /// The root user's slice may not be modified.
    RootNotAllowed,
    /// System accounts (uid below the regular-user threshold) may not be
    /// modified.
    SystemUserNotAllowed,
    /// The uid names no account in the user database.
    NoSuchUser,
}

/// Determines the uid whose limits are being changed.  When the
/// privilege-escalation environment passes the invoking user's uid as a
/// string, it must be a plain number, not root, not a system account, and
/// present in the user database; with no such variable the process's own
/// uid is used (the direct-invocation case).
pub fn get_calling_user_uid(pkexec_uid: Option<&str>) -> (r: Result<u32, UidError>)
    ensures
        match pkexec_uid {
            Option::None => r is Ok,
            Option::Some(s) => match spec_parse_u32(s.spec_bytes()) {
                Option::None => r == Result::<u32, UidError>::Err(UidError::InvalidFormat),
                Option::Some(uid) => {
                    if uid == 0 {
                        r == Result::<u32, UidError>::Err(UidError::RootNotAllowed)
                    } else if uid < FIRST_REGULAR_UID {
                        r == Result::<u32, UidError>::Err(UidError::SystemUserNotAllowed)
                    } else {
                        r == Result::<u32, UidError>::Ok(uid) || r == Result::<u32, UidError>::Err(
                            UidError::NoSuchUser,
                        )
                    }
                },
            },
        },
{
    match pkexec_uid {
        Option::None => Result::Ok(current_uid()),
        Option::Some(s) => {
            let uid = match crate::system::parse_uid(s) {
                Option::None => {
                    return Result::Err(UidError::InvalidFormat);
                },
                Option::Some(uid) => uid,
            };
            if uid == 0 {
                return Result::Err(UidError::RootNotAllowed);
            }
            if uid < FIRST_REGULAR_UID {
                return Result::Err(UidError::SystemUserNotAllowed);
            }
            match lookup_username(uid) {
                Option::None => Result::Err(UidError::NoSuchUser),
                Option::Some(_) => Result::Ok(uid),
            }
        },
    }
}

/// The drop-in content that applies default limits to every user slice.
pub open spec fn spec_slice_unit_config(cpu_quota_percent: nat, mem_bytes: nat) -> Seq<char> {
    "[Slice]\nCPUQuota="@ + spec_dec(cpu_quota_percent) + "%\nMemoryMax="@ + spec_dec(mem_bytes)
        + "\n"@
}

/// Renders the systemd drop-in that sets the default per-user slice limits.
pub fn render_slice_unit_config(cpu_quota_percent: u32, mem_bytes: u64) -> (r: String)
    ensures
        r@ == spec_slice_unit_config(cpu_quota_percent as nat, mem_bytes as nat),
{
    let mut s = String::from_str("[Slice]\nCPUQuota=");
    s.append(crate::utils::u32_to_string(cpu_quota_percent).as_str());
    s.append("%\nMemoryMax=");
    s.append(crate::utils::u64_to_string(mem_bytes).as_str());
    s.append("\n");
    proof {
        assert(s@ =~= spec_slice_unit_config(cpu_quota_percent as nat, mem_bytes as nat));
    }
    s
}

/// The policy file recording the configured defaults, reserves and caps.
pub open spec fn spec_policy_toml(
    cpu: nat,
    mem: nat,
    cpu_reserve: nat,
    mem_reserve: nat,
    max_cpu_cap: nat,
) -> Seq<char> {
    "[defaults]\ncpu = "@ + spec_dec(cpu) + "\nmem = "@ + spec_dec(mem) + "\ncpu_reserve = "@
        + spec_dec(cpu_reserve) + "\nmem_reserve = "@ + spec_dec(mem_reserve)
        + "\n\n[max_caps]\ncpu = "@ + spec_dec(max_cpu_cap) + "\nmem = "@ + spec_dec(mem) + "\n"@
}

/// Renders the policy file content written by the setup step: per-user
/// defaults, system reserves, and the caps (CPU capped at ten times the
/// default, memory at the default).
pub fn render_policy_toml(
    cpu: u32,
    mem: u32,
    cpu_reserve: u32,
    mem_reserve: u32,
    max_cpu_cap: u32,
) -> (r: String)
    ensures
        r@ == spec_policy_toml(
            cpu as nat,
            mem as nat,
            cpu_reserve as nat,
            mem_reserve as nat,
            max_cpu_cap as nat,
        ),
{
    let mut s = String::from_str("[defaults]\ncpu = ");
    s.append(crate::utils::u32_to_string(cpu).as_str());
    s.append("\nmem = ");
    s.append(crate::utils::u32_to_string(mem).as_str());
    s.append("\ncpu_reserve = ");
    s.append(crate::utils::u32_to_string(cpu_reserve).as_str());
    s.append("\nmem_reserve = ");
    s.append(crate::utils::u32_to_string(mem_reserve).as_str());
    s.append("\n\n[max_caps]\ncpu = ");
    s.append(crate::utils::u32_to_string(max_cpu_cap).as_str());
    s.append("\nmem = ");
    s.append(crate::utils::u32_to_string(mem).as_str());
    s.append("\n");
    proof {
        assert(s@ =~= spec_policy_toml(
            cpu as nat,
            mem as nat,
            cpu_reserve as nat,
            mem_reserve as nat,
            max_cpu_cap as nat,
        ));
    }
    s
}

/// The capability surface of an enforcement backend: whatever manages the
/// cgroup slices implements these three operations, so the ledger and the
/// quota engine never depend on one particular manager.  The embedding
/// program supplies the implementation.
pub trait LimitBackend {
    /// Creates or updates the limit for a user; reports success.
    fn create_limit(&mut self, uid: u32, plan: &LimitPlan) -> bool;

    /// Reverts a user's limit to the default; reports success.
    fn remove_limit(&mut self, uid: u32) -> bool;

    /// The limit currently in force for a user, if any.
    fn query_limit(&mut self, uid: u32) -> Option<LimitPlan>;
}

} // verus!
