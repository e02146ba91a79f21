//! The resource ledger: availability arithmetic and the admit/reject verdict.
//!
//! CPU is tracked in percent (one core = 100) so that fractional per-user
//! quotas need no floating point; memory and disk are tracked in bytes.
//! Availability is `total - reserve - other users' usage - service usage`,
//! clamped to zero, where a requester's own existing grant is excluded from
//! the subtraction (delta semantics).

use vstd::prelude::*;

verus! {

use vstd::string::StringSliceAdditionalSpecFns;
use vstd::string::StringExecFns;
use crate::mounts::bytes_of;
use crate::utils::{spec_digit_char, is_dec_digit, is_numchar, dec_value, dot_pos, pow10};

/// Snapshot of host capacity, recomputed per invocation and never persisted.
pub struct SystemTotals {
    pub total_cpu_count: u64,
    pub total_mem_bytes: u64,
    pub total_disk_bytes: u64,
}

/// Administrator-configured headroom subtracted before any request is considered.
pub struct SystemReserves {
    pub cpu_reserve: u64,
    pub mem_reserve_bytes: u64,
    pub disk_reserve_bytes: u64,
}

/// One user's current grant.  `cpu_quota_percent` is the cgroup CPU quota in
/// percent (400 = four cores).
pub struct UserAlloc {
    pub uid: u32,
    pub cpu_quota_percent: u64,
    pub mem_bytes: u64,
    pub disk_bytes: u64,
}

/// A resource carve-out for a system service that competes for the same pool.
pub struct ServiceAlloc {
    pub name: String,
    pub cpu_quota_percent: u64,
    pub mem_bytes: u64,
    pub disk_bytes: u64,
}

/// Sum of (cpu percent, mem bytes, disk bytes) over the first `n` user entries.
pub open spec fn user_usage(s: Seq<UserAlloc>, n: int) -> (int, int, int)
    decreases n,
{
    if n <= 0 {
        (0, 0, 0)
    } else {
        let p = user_usage(s, n - 1);
        (
            p.0 + s[n - 1].cpu_quota_percent,
            p.1 + s[n - 1].mem_bytes,
            p.2 + s[n - 1].disk_bytes,
        )
    }
}

/// Sum of (cpu percent, mem bytes, disk bytes) over the first `n` service entries.
pub open spec fn service_usage(s: Seq<ServiceAlloc>, n: int) -> (int, int, int)
    decreases n,
{
    if n <= 0 {
        (0, 0, 0)
    } else {
        let p = service_usage(s, n - 1);
        (
            p.0 + s[n - 1].cpu_quota_percent,
            p.1 + s[n - 1].mem_bytes,
            p.2 + s[n - 1].disk_bytes,
        )
    }
}

/// Usage of the first entry whose uid matches, or zero when none matches.
/// This is the quantity the delta rule excludes from the charge.
pub open spec fn own_usage(s: Seq<UserAlloc>, uid: u32) -> (int, int, int)
    decreases s.len(),
{
    if s.len() == 0 {
        (0, 0, 0)
    } else if s[0].uid == uid {
        (s[0].cpu_quota_percent as int, s[0].mem_bytes as int, s[0].disk_bytes as int)
    } else {
        own_usage(s.drop_first(), uid)
    }
}

/// Usage excluded for the requester: zero when there is no requester.
pub open spec fn requester_usage(s: Seq<UserAlloc>, requester: Option<u32>) -> (int, int, int) {
    match requester {
        Option::None => (0, 0, 0),
        Option::Some(uid) => own_usage(s, uid),
    }
}

pub open spec fn clamp0(x: int) -> int {
    if x < 0 {
        0
    } else {
        x
    }
}

/// Available CPU in percent, before flooring to whole cores.
pub open spec fn spec_avail_cpu_percent(
    totals: SystemTotals,
    reserves: SystemReserves,
    users: Seq<UserAlloc>,
    services: Seq<ServiceAlloc>,
    requester: Option<u32>,
) -> int {
    clamp0(
        totals.total_cpu_count * 100 - reserves.cpu_reserve * 100 - (user_usage(
            users,
            users.len() as int,
        ).0 - requester_usage(users, requester).0) - service_usage(
            services,
            services.len() as int,
        ).0,
    )
}

/// Available CPU in whole cores.
pub open spec fn spec_avail_cpu(
    totals: SystemTotals,
    reserves: SystemReserves,
    users: Seq<UserAlloc>,
    services: Seq<ServiceAlloc>,
    requester: Option<u32>,
) -> int {
    spec_avail_cpu_percent(totals, reserves, users, services, requester) / 100
}

/// Available memory in bytes.
pub open spec fn spec_avail_mem(
    totals: SystemTotals,
    reserves: SystemReserves,
    users: Seq<UserAlloc>,
    services: Seq<ServiceAlloc>,
    requester: Option<u32>,
) -> int {
    clamp0(
        totals.total_mem_bytes - reserves.mem_reserve_bytes - (user_usage(
            users,
            users.len() as int,
        ).1 - requester_usage(users, requester).1) - service_usage(
            services,
            services.len() as int,
        ).1,
    )
}

/// Available disk in bytes.
pub open spec fn spec_avail_disk(
    totals: SystemTotals,
    reserves: SystemReserves,
    users: Seq<UserAlloc>,
    services: Seq<ServiceAlloc>,
    requester: Option<u32>,
) -> int {
    clamp0(
        totals.total_disk_bytes - reserves.disk_reserve_bytes - (user_usage(
            users,
            users.len() as int,
        ).2 - requester_usage(users, requester).2) - service_usage(
            services,
            services.len() as int,
        ).2,
    )
}

/// The verdict on a request: every requested quantity is at or under the
/// corresponding availability (the boundary is inclusive).
pub open spec fn spec_admit(
    totals: SystemTotals,
    reserves: SystemReserves,
    users: Seq<UserAlloc>,
    services: Seq<ServiceAlloc>,
    req_cpu: int,
    req_mem_bytes: int,
    req_disk_bytes: int,
    requester: Option<u32>,
) -> bool {
    &&& req_cpu <= spec_avail_cpu(totals, reserves, users, services, requester)
    &&& req_mem_bytes <= spec_avail_mem(totals, reserves, users, services, requester)
    &&& req_disk_bytes <= spec_avail_disk(totals, reserves, users, services, requester)
}

/// Computes the summed usage of `allocations` as (cpu percent, mem, disk).
fn sum_user_usage(allocations: &Vec<UserAlloc>) -> (r: (u128, u128, u128))
    ensures
        r.0 == user_usage(allocations@, allocations@.len() as int).0,
        r.1 == user_usage(allocations@, allocations@.len() as int).1,
        r.2 == user_usage(allocations@, allocations@.len() as int).2,
{
    let mut cpu: u128 = 0;
    let mut mem: u128 = 0;
    let mut disk: u128 = 0;
    let n = allocations.len();
    let mut i: usize = 0;
    while i < n
        invariant
            0 <= i <= n,
            n == allocations@.len(),
            cpu == user_usage(allocations@, i as int).0,
            mem == user_usage(allocations@, i as int).1,
            disk == user_usage(allocations@, i as int).2,
            cpu <= i * (u64::MAX as int),
            mem <= i * (u64::MAX as int),
            disk <= i * (u64::MAX as int),
        decreases n - i,
    {
        let a = &allocations[i];
        proof {
            assert((i + 1) * (u64::MAX as int) == i * (u64::MAX as int) + u64::MAX) by (nonlinear_arith);
            assert(i * (u64::MAX as int) <= (usize::MAX as int) * (u64::MAX as int)) by (nonlinear_arith)
                requires 0 <= i <= usize::MAX;
        }
        cpu = cpu + a.cpu_quota_percent as u128;
        mem = mem + a.mem_bytes as u128;
        disk = disk + a.disk_bytes as u128;
        i = i + 1;
    }
    (cpu, mem, disk)
}

/// Computes the summed usage of `services` as (cpu percent, mem, disk).
fn sum_service_usage(services: &Vec<ServiceAlloc>) -> (r: (u128, u128, u128))
    ensures
        r.0 == service_usage(services@, services@.len() as int).0,
        r.1 == service_usage(services@, services@.len() as int).1,
        r.2 == service_usage(services@, services@.len() as int).2,
{
    let mut cpu: u128 = 0;
    let mut mem: u128 = 0;
    let mut disk: u128 = 0;
    let n = services.len();
    let mut i: usize = 0;
    while i < n
        invariant
            0 <= i <= n,
            n == services@.len(),
            cpu == service_usage(services@, i as int).0,
            mem == service_usage(services@, i as int).1,
            disk == service_usage(services@, i as int).2,
            cpu <= i * (u64::MAX as int),
            mem <= i * (u64::MAX as int),
            disk <= i * (u64::MAX as int),
        decreases n - i,
    {
        let a = &services[i];
        proof {
            assert((i + 1) * (u64::MAX as int) == i * (u64::MAX as int) + u64::MAX) by (nonlinear_arith);
            assert(i * (u64::MAX as int) <= (usize::MAX as int) * (u64::MAX as int)) by (nonlinear_arith)
                requires 0 <= i <= usize::MAX;
        }
        cpu = cpu + a.cpu_quota_percent as u128;
        mem = mem + a.mem_bytes as u128;
        disk = disk + a.disk_bytes as u128;
        i = i + 1;
    }
    (cpu, mem, disk)
}

/// Finds the usage of the first allocation entry for `uid`, or zero.
fn find_own_usage(allocations: &Vec<UserAlloc>, uid: u32) -> (r: (u64, u64, u64))
    ensures
        r.0 == own_usage(allocations@, uid).0,
        r.1 == own_usage(allocations@, uid).1,
        r.2 == own_usage(allocations@, uid).2,
{
    let n = allocations.len();
    let mut i: usize = 0;
    proof {
        assert(allocations@.skip(0) =~= allocations@);
    }
    while i < n
        invariant
            0 <= i <= n,
            n == allocations@.len(),
            own_usage(allocations@, uid) == own_usage(allocations@.skip(i as int), uid),
        decreases n - i,
    {
        let a = &allocations[i];
        proof {
            assert(allocations@.skip(i as int)[0] == allocations@[i as int]);
            assert(allocations@.skip(i as int).drop_first() =~= allocations@.skip(i as int + 1));
        }
        if a.uid == uid {
            return (a.cpu_quota_percent, a.mem_bytes, a.disk_bytes);
        }
        i = i + 1;
    }
    proof {
        assert(allocations@.skip(n as int) =~= Seq::<UserAlloc>::empty());
    }
    (0, 0, 0)
}

/// Saturating subtraction on the wide accumulator type.
fn sat_sub(a: u128, b: u128) -> (r: u128)
    ensures
        r == clamp0(a - b),
{
    if a >= b {
        a - b
    } else {
        0
    }
}

/// Iterated saturating subtraction computes the clamped linear form: once a
/// subtraction hits zero, subtracting more non-negative terms keeps it there.
proof fn lemma_sat_sub_chain(t: int, a: int, b: int, c: int)
    requires
        a >= 0,
        b >= 0,
        c >= 0,
    ensures
        clamp0(clamp0(clamp0(t - a) - b) - c) == clamp0(t - a - b - c),
{
}

/// Computes availability for a proposed request as
/// `(cpu whole cores, mem bytes, disk bytes)`:
/// totals minus reserves minus current usage, where the requester's own
/// existing grant (first entry with a matching uid) is excluded from the
/// charge, each component clamped to zero.
pub fn calculate_available_resources(
    totals: &SystemTotals,
    reserves: &SystemReserves,
    allocations: &Vec<UserAlloc>,
    services: &Vec<ServiceAlloc>,
    requesting_user_uid: Option<u32>,
) -> (r: (u64, u64, u64))
    ensures
        r.0 == spec_avail_cpu(*totals, *reserves, allocations@, services@, requesting_user_uid),
        r.1 == spec_avail_mem(*totals, *reserves, allocations@, services@, requesting_user_uid),
        r.2 == spec_avail_disk(*totals, *reserves, allocations@, services@, requesting_user_uid),
{
    let used = sum_user_usage(allocations);
    let svc = sum_service_usage(services);
    let own: (u64, u64, u64) = match requesting_user_uid {
        Option::Some(uid) => find_own_usage(allocations, uid),
        Option::None => (0, 0, 0),
    };
    proof {
        lemma_own_le_user_usage(allocations@, requesting_user_uid);
    }

    // CPU, in percent while subtracting.
    let total_cpu_percent = (totals.total_cpu_count as u128) * 100;
    let reserve_cpu_percent = (reserves.cpu_reserve as u128) * 100;
    let adjusted_cpu = used.0 - own.0 as u128;
    let avail_cpu_percent = sat_sub(sat_sub(sat_sub(total_cpu_percent, adjusted_cpu), svc.0), reserve_cpu_percent);
    proof {
        lemma_sat_sub_chain(
            total_cpu_percent as int,
            adjusted_cpu as int,
            svc.0 as int,
            reserve_cpu_percent as int,
        );
    }
    let avail_cpu = avail_cpu_percent / 100;

    let adjusted_mem = used.1 - own.1 as u128;
    let avail_mem = sat_sub(sat_sub(sat_sub(totals.total_mem_bytes as u128, adjusted_mem), svc.1), reserves.mem_reserve_bytes as u128);
    proof {
        lemma_sat_sub_chain(
            totals.total_mem_bytes as int,
            adjusted_mem as int,
            svc.1 as int,
            reserves.mem_reserve_bytes as int,
        );
    }

    let adjusted_disk = used.2 - own.2 as u128;
    let avail_disk = sat_sub(sat_sub(sat_sub(totals.total_disk_bytes as u128, adjusted_disk), svc.2), reserves.disk_reserve_bytes as u128);
    proof {
        lemma_sat_sub_chain(
            totals.total_disk_bytes as int,
            adjusted_disk as int,
            svc.2 as int,
            reserves.disk_reserve_bytes as int,
        );
    }

    (avail_cpu as u64, avail_mem as u64, avail_disk as u64)
}

/// The usage of the requester's own entry never exceeds the summed usage:
/// it is one of the summands (or zero when absent).
proof fn lemma_own_le_user_usage(s: Seq<UserAlloc>, requester: Option<u32>)
    ensures
        requester_usage(s, requester).0 <= user_usage(s, s.len() as int).0,
        requester_usage(s, requester).1 <= user_usage(s, s.len() as int).1,
        requester_usage(s, requester).2 <= user_usage(s, s.len() as int).2,
        user_usage(s, s.len() as int).0 >= 0,
        user_usage(s, s.len() as int).1 >= 0,
        user_usage(s, s.len() as int).2 >= 0,
    decreases s.len(),
{
    lemma_user_usage_nonneg(s, s.len() as int);
    match requester {
        Option::None => {},
        Option::Some(uid) => {
            if s.len() > 0 {
                lemma_user_usage_first(s);
                if s[0].uid == uid {
                    lemma_user_usage_nonneg(s.drop_first(), s.len() - 1);
                } else {
                    lemma_own_le_user_usage(s.drop_first(), requester);
                }
            }
        },
    }
}

/// Prefix sums of non-negative entries are non-negative and monotone.
proof fn lemma_user_usage_nonneg(s: Seq<UserAlloc>, n: int)
    ensures
        user_usage(s, n).0 >= 0,
        user_usage(s, n).1 >= 0,
        user_usage(s, n).2 >= 0,
    decreases n,
{
    if n > 0 {
        lemma_user_usage_nonneg(s, n - 1);
    }
}

/// Splitting off the first element: the sum over all of `s` equals the first
/// entry plus the sum over the rest.
proof fn lemma_user_usage_first(s: Seq<UserAlloc>)
    requires
        s.len() > 0,
    ensures
        user_usage(s, s.len() as int).0 == s[0].cpu_quota_percent + user_usage(
            s.drop_first(),
            s.len() - 1,
        ).0,
        user_usage(s, s.len() as int).1 == s[0].mem_bytes + user_usage(s.drop_first(), s.len() - 1).1,
        user_usage(s, s.len() as int).2 == s[0].disk_bytes + user_usage(s.drop_first(), s.len() - 1).2,
{
    lemma_user_usage_shift(s, s.len() as int);
}

/// `user_usage(s, n)` over a sequence with its head removed, for all prefixes.
proof fn lemma_user_usage_shift(s: Seq<UserAlloc>, n: int)
    requires
        s.len() > 0,
        1 <= n <= s.len(),
    ensures
        user_usage(s, n).0 == s[0].cpu_quota_percent + user_usage(s.drop_first(), n - 1).0,
        user_usage(s, n).1 == s[0].mem_bytes + user_usage(s.drop_first(), n - 1).1,
        user_usage(s, n).2 == s[0].disk_bytes + user_usage(s.drop_first(), n - 1).2,
    decreases n,
{
    let d = s.drop_first();
    if n == 1 {
        assert(user_usage(s, 1) == (
            user_usage(s, 0).0 + s[0].cpu_quota_percent,
            user_usage(s, 0).1 + s[0].mem_bytes,
            user_usage(s, 0).2 + s[0].disk_bytes,
        ));
        assert(user_usage(s, 0) == (0int, 0int, 0int));
        assert(user_usage(d, 0) == (0int, 0int, 0int));
    } else {
        lemma_user_usage_shift(s, n - 1);
        assert(d[n - 2] == s[n - 1]);
        assert(user_usage(s, n) == (
            user_usage(s, n - 1).0 + s[n - 1].cpu_quota_percent,
            user_usage(s, n - 1).1 + s[n - 1].mem_bytes,
            user_usage(s, n - 1).2 + s[n - 1].disk_bytes,
        ));
        assert(user_usage(d, n - 1) == (
            user_usage(d, n - 2).0 + d[n - 2].cpu_quota_percent,
            user_usage(d, n - 2).1 + d[n - 2].mem_bytes,
            user_usage(d, n - 2).2 + d[n - 2].disk_bytes,
        ));
    }
}

/// The admit/reject verdict for a proposed request: admitted exactly when
/// every requested quantity is at or under the corresponding availability.
/// CPU is compared in whole cores; memory and disk in bytes.
pub fn check_request(
    totals: &SystemTotals,
    reserves: &SystemReserves,
    allocations: &Vec<UserAlloc>,
    services: &Vec<ServiceAlloc>,
    req_cpu: u64,
    req_mem_bytes: u64,
    req_disk_bytes: u64,
    requesting_user_uid: Option<u32>,
) -> (verdict: bool)
    ensures
        verdict == spec_admit(
            *totals,
            *reserves,
            allocations@,
            services@,
            req_cpu as int,
            req_mem_bytes as int,
            req_disk_bytes as int,
            requesting_user_uid,
        ),
{
    let avail = calculate_available_resources(
        totals,
        reserves,
        allocations,
        services,
        requesting_user_uid,
    );
    req_cpu <= avail.0 && req_mem_bytes <= avail.1 && req_disk_bytes <= avail.2
}

/// How many entries of `s` carry this uid.  The snapshot handed to the
/// ledger has one entry per user, so callers can rely on this being at most
/// one for well-formed input.
pub open spec fn uid_count(s: Seq<UserAlloc>, uid: u32) -> nat
    decreases s.len(),
{
    if s.len() == 0 {
        0
    } else {
        (if s[0].uid == uid {
            1nat
        } else {
            0nat
        }) + uid_count(s.drop_first(), uid)
    }
}

/// The sequence with the first entry for `uid` removed (unchanged when absent).
pub open spec fn remove_first_uid(s: Seq<UserAlloc>, uid: u32) -> Seq<UserAlloc>
    decreases s.len(),
{
    if s.len() == 0 {
        s
    } else if s[0].uid == uid {
        s.drop_first()
    } else {
        seq![s[0]] + remove_first_uid(s.drop_first(), uid)
    }
}

/// When no entry carries the uid, nothing is excluded for it.
proof fn lemma_count0_own0(s: Seq<UserAlloc>, uid: u32)
    requires
        uid_count(s, uid) == 0,
    ensures
        own_usage(s, uid) == (0int, 0int, 0int),
    decreases s.len(),
{
    if s.len() > 0 {
        lemma_count0_own0(s.drop_first(), uid);
    }
}

/// Removing the first entry for `uid` takes exactly that entry's usage out of
/// the summed usage, and (when the uid appeared at most once) leaves a
/// sequence in which the uid no longer appears.
proof fn lemma_remove_usage(s: Seq<UserAlloc>, uid: u32)
    ensures
        user_usage(remove_first_uid(s, uid), remove_first_uid(s, uid).len() as int).0 == user_usage(
            s,
            s.len() as int,
        ).0 - own_usage(s, uid).0,
        user_usage(remove_first_uid(s, uid), remove_first_uid(s, uid).len() as int).1 == user_usage(
            s,
            s.len() as int,
        ).1 - own_usage(s, uid).1,
        user_usage(remove_first_uid(s, uid), remove_first_uid(s, uid).len() as int).2 == user_usage(
            s,
            s.len() as int,
        ).2 - own_usage(s, uid).2,
        uid_count(s, uid) <= 1 ==> own_usage(remove_first_uid(s, uid), uid) == (0int, 0int, 0int),
    decreases s.len(),
{
    if s.len() == 0 {
    } else {
        let d = s.drop_first();
        lemma_user_usage_first(s);
        if s[0].uid == uid {
            if uid_count(s, uid) <= 1 {
                lemma_count0_own0(d, uid);
            }
        } else {
            lemma_remove_usage(d, uid);
            let r = remove_first_uid(s, uid);
            assert(r[0] == s[0]);
            assert(r.drop_first() =~= remove_first_uid(d, uid));
            lemma_user_usage_first(r);
        }
    }
}

/// Delta exclusion: a requester's verdict is the same as the verdict computed
/// against a snapshot from which their own grant has been removed outright.
/// With the requested quantities held fixed, admission is therefore
/// independent of the size of the requester's own prior grant.
pub proof fn lemma_delta_exclusion(
    totals: SystemTotals,
    reserves: SystemReserves,
    users: Seq<UserAlloc>,
    services: Seq<ServiceAlloc>,
    req_cpu: int,
    req_mem_bytes: int,
    req_disk_bytes: int,
    uid: u32,
)
    requires
        uid_count(users, uid) <= 1,
    ensures
        spec_admit(
            totals,
            reserves,
            users,
            services,
            req_cpu,
            req_mem_bytes,
            req_disk_bytes,
            Option::Some(uid),
        ) == spec_admit(
            totals,
            reserves,
            remove_first_uid(users, uid),
            services,
            req_cpu,
            req_mem_bytes,
            req_disk_bytes,
            Option::Some(uid),
        ),
{
    lemma_remove_usage(users, uid);
}

/// Independence form of delta exclusion: two snapshots that agree on
/// everyone else's grants give the requester the same verdict, whatever the
/// requester's own grant looks like in each.
pub proof fn lemma_delta_exclusion_independence(
    totals: SystemTotals,
    reserves: SystemReserves,
    users1: Seq<UserAlloc>,
    users2: Seq<UserAlloc>,
    services: Seq<ServiceAlloc>,
    req_cpu: int,
    req_mem_bytes: int,
    req_disk_bytes: int,
    uid: u32,
)
    requires
        uid_count(users1, uid) <= 1,
        uid_count(users2, uid) <= 1,
        remove_first_uid(users1, uid) == remove_first_uid(users2, uid),
    ensures
        spec_admit(
            totals,
            reserves,
            users1,
            services,
            req_cpu,
            req_mem_bytes,
            req_disk_bytes,
            Option::Some(uid),
        ) == spec_admit(
            totals,
            reserves,
            users2,
            services,
            req_cpu,
            req_mem_bytes,
            req_disk_bytes,
            Option::Some(uid),
        ),
{
    lemma_delta_exclusion(
        totals,
        reserves,
        users1,
        services,
        req_cpu,
        req_mem_bytes,
        req_disk_bytes,
        uid,
    );
    lemma_delta_exclusion(
        totals,
        reserves,
        users2,
        services,
        req_cpu,
        req_mem_bytes,
        req_disk_bytes,
        uid,
    );
}

/// A requester with no existing allocation is treated identically to the
/// "new user" case: the verdict with their uid equals the verdict without
/// any requester identity.
pub proof fn lemma_absent_requester_is_new_user(
    totals: SystemTotals,
    reserves: SystemReserves,
    users: Seq<UserAlloc>,
    services: Seq<ServiceAlloc>,
    req_cpu: int,
    req_mem_bytes: int,
    req_disk_bytes: int,
    uid: u32,
)
    requires
        uid_count(users, uid) == 0,
    ensures
        spec_admit(
            totals,
            reserves,
            users,
            services,
            req_cpu,
            req_mem_bytes,
            req_disk_bytes,
            Option::Some(uid),
        ) == spec_admit(
            totals,
            reserves,
            users,
            services,
            req_cpu,
            req_mem_bytes,
            req_disk_bytes,
            Option::None,
        ),
{
    lemma_count0_own0(users, uid);
}

/// Boundary inclusivity: requesting exactly the computed availability is
/// always admitted, and exceeding any single component by one while holding
/// the others fixed is always rejected.
pub proof fn lemma_boundary_inclusive(
    totals: SystemTotals,
    reserves: SystemReserves,
    users: Seq<UserAlloc>,
    services: Seq<ServiceAlloc>,
    requester: Option<u32>,
)
    ensures
        spec_admit(
            totals,
            reserves,
            users,
            services,
            spec_avail_cpu(totals, reserves, users, services, requester),
            spec_avail_mem(totals, reserves, users, services, requester),
            spec_avail_disk(totals, reserves, users, services, requester),
            requester,
        ),
        !spec_admit(
            totals,
            reserves,
            users,
            services,
            spec_avail_cpu(totals, reserves, users, services, requester) + 1,
            spec_avail_mem(totals, reserves, users, services, requester),
            spec_avail_disk(totals, reserves, users, services, requester),
            requester,
        ),
        !spec_admit(
            totals,
            reserves,
            users,
            services,
            spec_avail_cpu(totals, reserves, users, services, requester),
            spec_avail_mem(totals, reserves, users, services, requester) + 1,
            spec_avail_disk(totals, reserves, users, services, requester),
            requester,
        ),
        !spec_admit(
            totals,
            reserves,
            users,
            services,
            spec_avail_cpu(totals, reserves, users, services, requester),
            spec_avail_mem(totals, reserves, users, services, requester),
            spec_avail_disk(totals, reserves, users, services, requester) + 1,
            requester,
        ),
{
}

/// Non-negativity: no availability component is ever negative, even when
/// reserves and usage together exceed the totals.
pub proof fn lemma_availability_nonnegative(
    totals: SystemTotals,
    reserves: SystemReserves,
    users: Seq<UserAlloc>,
    services: Seq<ServiceAlloc>,
    requester: Option<u32>,
)
    ensures
        spec_avail_cpu(totals, reserves, users, services, requester) >= 0,
        spec_avail_mem(totals, reserves, users, services, requester) >= 0,
        spec_avail_disk(totals, reserves, users, services, requester) >= 0,
{
}

/// End of the run of repeated `.slice` suffixes of `[start, j)`: the least
/// `j'` such that `[start, j')` no longer ends in `.slice`.
pub open spec fn strip_slice_reps(s: Seq<u8>, start: int, j: int) -> int
    decreases j - start,
{
    if j - start >= 6 && s.subrange(j - 6, j) == bytes_of(".slice"@) {
        strip_slice_reps(s, start, j - 6)
    } else {
        j
    }
}

/// The digit bytes `[i, j)` as characters.
pub open spec fn digit_chars(s: Seq<u8>, i: int, j: int) -> Seq<char>
    decreases j - i,
{
    if i >= j {
        Seq::empty()
    } else {
        digit_chars(s, i, j - 1).push(spec_digit_char(s[j - 1] - 48))
    }
}

/// First position of `b` in `[i, end)`, or `end`.
pub open spec fn byte_pos(s: Seq<u8>, b: u8, i: int, end: int) -> int
    decreases end - i,
{
    if i < end {
        if s[i] == b {
            i
        } else {
            byte_pos(s, b, i + 1, end)
        }
    } else {
        end
    }
}

/// The uid carried by a slice unit name such as `user-1000.slice`: the name
/// must consist of `user`, one dash, and a digit run (with any run of
/// trailing `.slice` suffixes removed) whose value fits a uid.  The digit
/// run is returned verbatim, leading zeros and all.
pub open spec fn spec_parse_uid_from_slice(s: Seq<u8>) -> Option<Seq<char>> {
    let h = byte_pos(s, 45, 0, s.len() as int);
    if h == s.len() || byte_pos(s, 45, h + 1, s.len() as int) < s.len() {
        Option::None
    } else if s.subrange(0, h) != bytes_of("user"@) {
        Option::None
    } else {
        let t = strip_slice_reps(s, h + 1, s.len() as int);
        if t <= h + 1 {
            Option::None
        } else if exists|k: int| h + 1 <= k < t && !is_dec_digit(#[trigger] s[k]) {
            Option::None
        } else if dec_value(s, h + 1, t) > u32::MAX {
            Option::None
        } else {
            Option::Some(digit_chars(s, h + 1, t))
        }
    }
}

fn byte_pos_exec(s: &[u8], b: u8, from: usize, end: usize) -> (r: usize)
    requires
        from <= end <= s@.len(),
    ensures
        r == byte_pos(s@, b, from as int, end as int),
        from <= r <= end,
{
    let mut i = from;
    while i < end
        invariant
            from <= i <= end,
            end <= s@.len(),
            byte_pos(s@, b, from as int, end as int) == byte_pos(s@, b, i as int, end as int),
        ensures
            from <= i <= end,
            byte_pos(s@, b, from as int, end as int) == i as int,
        decreases end - i,
    {
        if s[i] == b {
            break ;
        }
        i = i + 1;
    }
    i
}

/// Builds the string of the digit bytes `[from, to)`.
fn digits_to_string(s: &[u8], from: usize, to: usize) -> (r: String)
    requires
        from <= to <= s@.len(),
        forall|k: int| from <= k < to ==> is_dec_digit(s@[k]),
    ensures
        r@ == digit_chars(s@, from as int, to as int),
{
    let mut r = String::new();
    let mut j = from;
    while j < to
        invariant
            from <= j <= to,
            to <= s@.len(),
            forall|k: int| from <= k < to ==> is_dec_digit(s@[k]),
            r@ == digit_chars(s@, from as int, j as int),
        decreases to - j,
    {
        r.append(crate::utils::digit_str(s[j] - 48));
        j = j + 1;
    }
    r
}

/// Extracts the uid from a slice unit name such as `user-1000.slice`,
/// keeping the digits exactly as written; `None` for anything else.
pub fn parse_uid_from_slice(slice_name: &str) -> (r: Option<String>)
    ensures
        match spec_parse_uid_from_slice(slice_name.spec_bytes()) {
            Option::None => r is None,
            Option::Some(cs) => match r {
                Option::Some(out) => out@ == cs,
                Option::None => false,
            },
        },
{
    let s = slice_name.as_bytes();
    let len = s.len();
    let h = byte_pos_exec(s, 45, 0, len);
    if h == len {
        return Option::None;
    }
    if byte_pos_exec(s, 45, h + 1, len) < len {
        return Option::None;
    }
    proof {
        reveal_strlit("user");
        lemma_ascii_bytes_len("user"@);
        assert(bytes_of("user"@).len() == 4);
    }
    if !(h == 4 && crate::mounts::window_eq(s, 0, "user".as_bytes())) {
        proof {
            if h != 4 {
                assert(slice_name.spec_bytes().subrange(0, h as int).len() == h as int);
            }
        }
        return Option::None;
    }
    proof {
        reveal_strlit(".slice");
        lemma_ascii_bytes_len(".slice"@);
        assert(bytes_of(".slice"@).len() == 6);
    }
    let mut t = len;
    while t - (h + 1) >= 6
        invariant
            h + 1 <= t <= len,
            len == s@.len(),
            h < len,
            bytes_of(".slice"@).len() == 6,
            strip_slice_reps(s@, h + 1 as int, len as int) == strip_slice_reps(
                s@,
                h + 1 as int,
                t as int,
            ),
        ensures
            h + 1 <= t <= len,
            strip_slice_reps(s@, h + 1 as int, len as int) == t as int,
        decreases t,
    {
        if !crate::mounts::window_eq(s, t - 6, ".slice".as_bytes()) {
            proof {
                assert(strip_slice_reps(s@, h + 1 as int, t as int) == t as int);
            }
            break ;
        }
        t = t - 6;
    }
    if t <= h + 1 {
        return Option::None;
    }
    let ghost gspec = spec_parse_uid_from_slice(slice_name.spec_bytes());
    let mut k = h + 1;
    while k < t
        invariant
            h + 1 <= k <= t <= len,
            len == s@.len(),
            s@ == slice_name.spec_bytes(),
            gspec == spec_parse_uid_from_slice(slice_name.spec_bytes()),
            forall|q: int|
                h + 1 <= q < t && !is_dec_digit(#[trigger] s@[q]) ==> gspec is None,
            forall|q: int| h + 1 <= q < k ==> is_dec_digit(#[trigger] s@[q]),
        decreases t - k,
    {
        if !(48 <= s[k] && s[k] <= 57) {
            proof {
                assert(!is_dec_digit(s@[k as int]));
            }
            return Option::None;
        }
        k = k + 1;
    }
    let v = match crate::utils::parse_digits_u64(s, h + 1, t) {
        Option::None => {
            return Option::None;
        },
        Option::Some(v) => v,
    };
    if v > u32::MAX as u64 {
        return Option::None;
    }
    Option::Some(digits_to_string(s, h + 1, t))
}

/// The bytes of an ASCII string are one per character.
proof fn lemma_ascii_bytes_len(s: Seq<char>)
    requires
        forall|i: int| 0 <= i < s.len() ==> ((#[trigger] s[i]) as u32) < 128,
    ensures
        bytes_of(s).len() == s.len(),
    decreases s.len(),
{
    if s.len() > 0 {
        lemma_ascii_bytes_len(s.drop_first());
    }
}

/// The value shown for `MemoryMax=` in slice state output: a plain decimal
/// byte count, with anything unparseable (such as `infinity`) read as zero.
pub open spec fn spec_parse_memory_max(s: Seq<u8>) -> int {
    if s.len() == 0 {
        0
    } else if exists|k: int| 0 <= k < s.len() && !is_dec_digit(#[trigger] s[k]) {
        0
    } else if dec_value(s, 0, s.len() as int) > u64::MAX {
        0
    } else {
        dec_value(s, 0, s.len() as int)
    }
}

/// Parses a `MemoryMax=` value to bytes, zero when absent or not a number.
pub fn parse_memory_max_value(value: &str) -> (r: u64)
    ensures
        r == spec_parse_memory_max(value.spec_bytes()),
{
    let s = value.as_bytes();
    let len = s.len();
    if len == 0 {
        return 0;
    }
    let mut k: usize = 0;
    while k < len
        invariant
            0 <= k <= len,
            len == s@.len(),
            s@ == value.spec_bytes(),
            forall|q: int| 0 <= q < k ==> is_dec_digit(#[trigger] s@[q]),
        decreases len - k,
    {
        if !(48 <= s[k] && s[k] <= 57) {
            proof {
                assert(!is_dec_digit(s@[k as int]));
            }
            return 0;
        }
        k = k + 1;
    }
    match crate::utils::parse_digits_u64(s, 0, len) {
        Option::None => 0,
        Option::Some(v) => v,
    }
}

/// The CPU quota percent encoded in a `CPUQuotaPerSecUSec=` value: decimal
/// seconds with an `s` suffix, times one hundred, rounded down (one second
/// per second is one full core, 100 percent).  Anything else reads as zero.
pub open spec fn spec_parse_cpu_quota_percent(s: Seq<u8>) -> int {
    if s.len() == 0 || s[s.len() - 1] != 115 {
        0
    } else {
        let e = s.len() - 1;
        let d = dot_pos(s, 0, e);
        if e == 0 {
            0
        } else if exists|k: int| 0 <= k < e && !is_numchar(#[trigger] s[k]) {
            0
        } else if d < e && dot_pos(s, d + 1, e) < e {
            0
        } else if d < e && e == 1 {
            0
        } else if (if d < e {
            e - d - 1
        } else {
            0
        }) > 15 {
            0
        } else {
            let fraclen = if d < e {
                e - d - 1
            } else {
                0
            };
            let fstart = if d < e {
                d + 1
            } else {
                e
            };
            let total = dec_value(s, 0, d) * 100 + (dec_value(s, fstart, e) * 100) / pow10(
                fraclen as nat,
            ) as int;
            if total > u64::MAX {
                0
            } else {
                total
            }
        }
    }
}

/// Parses a `CPUQuotaPerSecUSec=` value (such as `2.5s`) to a CPU quota in
/// percent, rounded down; zero when unset, `infinity`, or malformed.
pub fn parse_cpu_quota_percent(value: &str) -> (r: u64)
    ensures
        r == spec_parse_cpu_quota_percent(value.spec_bytes()),
{
    let s = value.as_bytes();
    let len = s.len();
    if len == 0 || s[len - 1] != 115 {
        return 0;
    }
    let e = len - 1;
    if e == 0 {
        return 0;
    }
    let mut k: usize = 0;
    while k < e
        invariant
            0 <= k <= e,
            e < s@.len(),
            e == s@.len() - 1,
            s@ == value.spec_bytes(),
            s@[s@.len() - 1] == 115,
            forall|q: int| 0 <= q < k ==> is_numchar(#[trigger] s@[q]),
        decreases e - k,
    {
        if !crate::utils::is_numchar_b(s[k]) {
            proof {
                assert(!is_numchar(s@[k as int]));
            }
            return 0;
        }
        k = k + 1;
    }
    let d = crate::utils::dot_pos_exec(s, 0, e);
    proof {
        crate::utils::lemma_dot_pos_range(s@, 0, e as int);
    }
    if d < e {
        let d2 = crate::utils::dot_pos_exec(s, d + 1, e);
        proof {
            crate::utils::lemma_dot_pos_range(s@, d as int + 1, e as int);
        }
        if d2 < e {
            return 0;
        }
        if e == 1 {
            return 0;
        }
    }
    let fraclen = if d < e {
        e - d - 1
    } else {
        0
    };
    if fraclen > 15 {
        return 0;
    }
    let fstart = if d < e {
        d + 1
    } else {
        e
    };
    proof {
        assert(forall|q: int| 0 <= q < d ==> is_dec_digit(#[trigger] s@[q]));
        assert(forall|q: int| fstart <= q < e ==> is_dec_digit(#[trigger] s@[q]));
    }
    let iv = match crate::utils::parse_digits_u64(s, 0, d) {
        Option::None => {
            proof {
                lemma_cpu_quota_large(s@, d as int, fstart as int, e as int, fraclen as nat);
            }
            return 0;
        },
        Option::Some(v) => v,
    };
    let fv = match crate::utils::parse_digits_u64(s, fstart, e) {
        Option::None => {
            proof {
                crate::utils::lemma_dec_value_bound(s@, fstart as int, e as int);
                crate::utils::lemma_pow10_bound((e - fstart) as nat);
                assert(false);
            }
            0u64
        },
        Option::Some(v) => v,
    };
    let p = crate::utils::pow10_u64(fraclen);
    proof {
        assert(((fv as int) * 100) / (p as int) <= (fv as int) * 100) by (nonlinear_arith)
            requires p >= 1 && (fv as int) * 100 >= 0;
    }
    let total: u128 = (iv as u128) * 100 + ((fv as u128) * 100) / (p as u128);
    if total > u64::MAX as u128 {
        0
    } else {
        total as u64
    }
}

/// When the whole-seconds part overflows 64 bits, the percent total does too.
proof fn lemma_cpu_quota_large(s: Seq<u8>, d: int, fstart: int, e: int, fraclen: nat)
    requires
        0 <= d,
        fstart <= e,
        forall|k: int| 0 <= k < d ==> is_dec_digit(#[trigger] s[k]),
        forall|k: int| fstart <= k < e ==> is_dec_digit(#[trigger] s[k]),
        dec_value(s, 0, d) > u64::MAX,
    ensures
        dec_value(s, 0, d) * 100 + (dec_value(s, fstart, e) * 100) / pow10(fraclen) as int
            > u64::MAX,
{
    let iv = dec_value(s, 0, d);
    let fv = dec_value(s, fstart, e);
    crate::utils::lemma_dec_value_bound(s, fstart, e);
    crate::utils::lemma_pow10_pos(fraclen);
    assert(iv * 100 >= iv) by (nonlinear_arith)
        requires iv >= 0;
    assert((fv * 100) / pow10(fraclen) as int >= 0) by (nonlinear_arith)
        requires fv >= 0 && pow10(fraclen) >= 1;
}

/// The uid string parsed as a 32-bit value: digits only.
pub open spec fn spec_parse_u32(s: Seq<u8>) -> Option<u32> {
    if s.len() == 0 {
        Option::None
    } else if exists|k: int| 0 <= k < s.len() && !is_dec_digit(#[trigger] s[k]) {
        Option::None
    } else if dec_value(s, 0, s.len() as int) > u32::MAX {
        Option::None
    } else {
        Option::Some(dec_value(s, 0, s.len() as int) as u32)
    }
}

/// Parses a uid string.
pub fn parse_uid(uid_str: &str) -> (r: Option<u32>)
    ensures
        r == spec_parse_u32(uid_str.spec_bytes()),
{
    let s = uid_str.as_bytes();
    let len = s.len();
    if len == 0 {
        return Option::None;
    }
    let mut k: usize = 0;
    while k < len
        invariant
            0 <= k <= len,
            len == s@.len(),
            s@ == uid_str.spec_bytes(),
            forall|q: int| 0 <= q < k ==> is_dec_digit(#[trigger] s@[q]),
        decreases len - k,
    {
        if !(48 <= s[k] && s[k] <= 57) {
            proof {
                assert(!is_dec_digit(s@[k as int]));
            }
            return Option::None;
        }
        k = k + 1;
    }
    match crate::utils::parse_digits_u64(s, 0, len) {
        Option::None => Option::None,
        Option::Some(v) => {
            if v > u32::MAX as u64 {
                Option::None
            } else {
                Option::Some(v as u32)
            }
        },
    }
}

/// Looks up the account name behind a uid string.  A string that is not a
/// plain uid yields `None`; for a well-formed uid the answer is whatever the
/// host's user database holds.
pub fn get_username_from_uid(uid_str: &str) -> (r: Option<String>)
    ensures
        spec_parse_u32(uid_str.spec_bytes()) is None ==> r is None,
{
    match parse_uid(uid_str) {
        Option::None => Option::None,
        Option::Some(uid) => crate::osusers::lookup_username(uid),
    }
}

} // verus!
