//! The disk-quota engine: unit conversions, the two kernel quota record
//! layouts, quota-control command encoding, outcome classification, and the
//! planning of get/set/enumerate calls.
//!
//! Everything here is pure: a plan says which device to address, which
//! command to issue and which record to hand over; the embedding program
//! performs the actual quota syscall and feeds the raw outcome back into the
//! interpretation functions below.  User-facing gigabyte counts convert to
//! kernel block units through binary scaling (1 GiB = 1024^3 bytes), applied
//! exactly once, here.

use vstd::prelude::*;

use crate::mounts::{
    bytes_of, spec_family_of, spec_quota_enabled, spec_resolve_mount, FsFamily, MountEntry,
    mp_bytes, lemma_resolve_longest, resolve_mount, quota_enabled,
};

verus! {

use vstd::string::StringSliceAdditionalSpecFns;

/// Bytes per basic block (the basic-block family counts these).
pub const BASIC_BLOCK_BYTES: u64 = 512;

/// Bytes per kilobyte block (the kilobyte-block family counts these).
pub const KIB_BLOCK_BYTES: u64 = 1024;

/// Bytes per gigabyte on the kernel quota side (binary scaling).
pub const GIB_BYTES: u64 = 1073741824;

/// Lowest uid surfaced by enumeration: identifiers below this are system
/// accounts and are filtered out.
pub const REGULAR_USER_MIN_UID: u32 = 1000;

/// Quota-control command numbers of the kilobyte-block family.
pub const Q_GETQUOTA: u32 = 0x800007;

pub const Q_SETQUOTA: u32 = 0x800008;

pub const Q_GETNEXTQUOTA: u32 = 0x800009;

/// Quota-control command numbers of the basic-block family.
pub const Q_XGETQUOTA: u32 = 0x5803;

pub const Q_XSETQLIM: u32 = 0x5804;

pub const Q_XGETNEXTQUOTA: u32 = 0x5809;

/// The user-quota type argument of the quota-control interface.
pub const USRQUOTA: u32 = 0;

/// Validity flag of the kilobyte-block record: block limits are set.
pub const QIF_BLIMITS: u32 = 1;

/// Field mask of the basic-block record: soft and hard block limits are set.
pub const FS_DQ_BSOFT: u16 = 4;

pub const FS_DQ_BHARD: u16 = 8;

/// Version tag expected in the basic-block record.
pub const FS_DQUOT_VERSION: u8 = 1;

/// Flag marking the basic-block record as a user (not group) quota.
pub const FS_USER_QUOTA: u8 = 1;

/// Errno values that the set path maps to the non-fatal `Unsupported`
/// outcome: no such entry, no quota subsystem active, invalid argument.
pub const ENOENT: i32 = 2;

pub const ESRCH: i32 = 3;

pub const EINVAL: i32 = 22;

/// The quota engine's error taxonomy.
#[derive(Clone, Copy, PartialEq, Eq, Structural, Debug)]
pub enum QuotaError {
    /// Value out of bounds or arithmetic overflow; caught before any kernel call.
    InvalidInput,
    /// The kernel or filesystem does not support quotas here; non-fatal.
    Unsupported,
    /// The mount point or device could not be resolved.
    NotFound,
    /// The quota syscall failed for another reason (for example permission).
    KernelError,
}

/// Converts a user-facing gigabyte count to bytes with binary scaling,
/// rejecting values whose byte count does not fit in 64 bits.
pub fn gigabytes_to_bytes(gigabytes: u64) -> (r: Option<u64>)
    ensures
        match r {
            Option::Some(b) => b == gigabytes * GIB_BYTES,
            Option::None => gigabytes * GIB_BYTES > u64::MAX,
        },
{
    gigabytes.checked_mul(GIB_BYTES)
}

/// Bytes to 512-byte basic blocks, rounding down.
pub fn bytes_to_basic_blocks(bytes: u64) -> (r: u64)
    ensures
        r == bytes as int / BASIC_BLOCK_BYTES as int,
{
    bytes / BASIC_BLOCK_BYTES
}

/// Bytes to 1 KiB blocks, rounding down.
pub fn bytes_to_kib_blocks(bytes: u64) -> (r: u64)
    ensures
        r == bytes as int / KIB_BLOCK_BYTES as int,
{
    bytes / KIB_BLOCK_BYTES
}

/// Unit round-trip: converting whole gigabytes to bytes and on to either
/// block unit is exact, with no overflow for any gigabyte count whose byte
/// value fits in 64 bits (1 GB is 2,097,152 basic blocks and 1,048,576 KiB
/// blocks).
pub proof fn lemma_unit_round_trip(g: u64)
    requires
        g * GIB_BYTES <= u64::MAX,
    ensures
        (g * GIB_BYTES) as int / BASIC_BLOCK_BYTES as int == g * 2097152,
        (g * GIB_BYTES) as int / KIB_BLOCK_BYTES as int == g * 1048576,
{
    assert((g * GIB_BYTES) as int / 512 == g * 2097152) by (nonlinear_arith)
        requires g * GIB_BYTES <= u64::MAX && GIB_BYTES == 1073741824;
    assert((g * GIB_BYTES) as int / 1024 == g * 1048576) by (nonlinear_arith)
        requires g * GIB_BYTES <= u64::MAX && GIB_BYTES == 1073741824;
}

/// The quota record layout of the kilobyte-block family.  Block limits are
/// in 1 KiB units; the embedding program copies these fields into the
/// fixed-layout structure the kernel expects.
#[derive(Debug)]
pub struct KibQuotaRecord {
    pub bhardlimit: u64,
    pub bsoftlimit: u64,
    pub curspace: u64,
    pub ihardlimit: u64,
    pub isoftlimit: u64,
    pub curinodes: u64,
    pub btime: u64,
    pub itime: u64,
    pub valid: u32,
}

/// The quota record layout of the basic-block family.  Block limits are in
/// 512-byte units.
#[derive(Debug)]
pub struct BasicQuotaRecord {
    pub version: u8,
    pub flags: u8,
    pub fieldmask: u16,
    pub id: u32,
    pub blk_hardlimit: u64,
    pub blk_softlimit: u64,
    pub ino_hardlimit: u64,
    pub ino_softlimit: u64,
    pub bcount: u64,
    pub icount: u64,
}

/// Builds the kilobyte-block record that sets hard and soft limits to the
/// same block count, marking only the block limits as valid.
pub fn build_kib_limit_record(limit_kib_blocks: u64) -> (r: KibQuotaRecord)
    ensures
        r.bhardlimit == limit_kib_blocks,
        r.bsoftlimit == limit_kib_blocks,
        r.valid == QIF_BLIMITS,
        r.curspace == 0,
        r.ihardlimit == 0,
        r.isoftlimit == 0,
        r.curinodes == 0,
        r.btime == 0,
        r.itime == 0,
{
    KibQuotaRecord {
        bhardlimit: limit_kib_blocks,
        bsoftlimit: limit_kib_blocks,
        curspace: 0,
        ihardlimit: 0,
        isoftlimit: 0,
        curinodes: 0,
        btime: 0,
        itime: 0,
        valid: QIF_BLIMITS,
    }
}

/// Builds the basic-block record that sets hard and soft limits to the same
/// block count for one user, masking in only the block-limit fields.
pub fn build_basic_limit_record(user_id: u32, limit_basic_blocks: u64) -> (r: BasicQuotaRecord)
    ensures
        r.version == FS_DQUOT_VERSION,
        r.flags == FS_USER_QUOTA,
        r.fieldmask == FS_DQ_BSOFT as u16 + FS_DQ_BHARD as u16,
        r.id == user_id,
        r.blk_hardlimit == limit_basic_blocks,
        r.blk_softlimit == limit_basic_blocks,
        r.ino_hardlimit == 0,
        r.ino_softlimit == 0,
        r.bcount == 0,
        r.icount == 0,
{
    BasicQuotaRecord {
        version: FS_DQUOT_VERSION,
        flags: FS_USER_QUOTA,
        fieldmask: FS_DQ_BSOFT + FS_DQ_BHARD,
        id: user_id,
        blk_hardlimit: limit_basic_blocks,
        blk_softlimit: limit_basic_blocks,
        ino_hardlimit: 0,
        ino_softlimit: 0,
        bcount: 0,
        icount: 0,
    }
}

/// Packs a quota-control command number and quota type into the single
/// command word the kernel interface expects (command in the high bits,
/// type in the low byte).
pub fn qcmd(cmd: u32, qtype: u32) -> (r: u32)
    requires
        cmd <= 0xFFFFFF,
        qtype <= 0xFF,
    ensures
        r == cmd * 256 + qtype,
{
    cmd * 256 + qtype
}

/// Maps the errno of a failed quota-set call to the engine's taxonomy:
/// "no such entry", "no quota subsystem active" and "invalid argument" all
/// mean the filesystem offers no usable quota support (non-fatal); anything
/// else is a hard kernel error.
pub fn classify_set_errno(errno: i32) -> (r: QuotaError)
    ensures
        r == (if errno == ENOENT || errno == ESRCH || errno == EINVAL {
            QuotaError::Unsupported
        } else {
            QuotaError::KernelError
        }),
{
    if errno == ENOENT || errno == ESRCH || errno == EINVAL {
        QuotaError::Unsupported
    } else {
        QuotaError::KernelError
    }
}

/// The record handed to a quota-set call, in the layout of the resolved
/// family.
#[derive(Debug)]
pub enum QuotaSetRecord {
    Basic(BasicQuotaRecord),
    Kib(KibQuotaRecord),
}

/// A fully planned quota-set call: the device to address, the packed
/// command word, and the family-specific record.
#[derive(Debug)]
pub struct QuotaSetPlan {
    pub device: String,
    pub command: u32,
    pub record: QuotaSetRecord,
}

/// What a correct plan for `set_user_disk_limit` looks like, given the
/// resolved mount index.
pub open spec fn set_plan_ok(
    table: Seq<MountEntry>,
    user_id: u32,
    gigabytes: u64,
    i: int,
    plan: QuotaSetPlan,
) -> bool {
    &&& plan.device@ == table[i].device@
    &&& match spec_family_of(bytes_of(table[i].fs_type@)) {
        FsFamily::BasicBlock => {
            &&& plan.command == Q_XSETQLIM * 256 + USRQUOTA
            &&& match plan.record {
                QuotaSetRecord::Basic(rec) => {
                    &&& rec.id == user_id
                    &&& rec.blk_hardlimit == (gigabytes * GIB_BYTES) as int / BASIC_BLOCK_BYTES as int
                    &&& rec.blk_softlimit == rec.blk_hardlimit
                    &&& rec.version == FS_DQUOT_VERSION
                    &&& rec.flags == FS_USER_QUOTA
                    &&& rec.fieldmask == FS_DQ_BSOFT + FS_DQ_BHARD
                },
                QuotaSetRecord::Kib(_) => false,
            }
        },
        FsFamily::KilobyteBlock => {
            &&& plan.command == Q_SETQUOTA * 256 + USRQUOTA
            &&& match plan.record {
                QuotaSetRecord::Kib(rec) => {
                    &&& rec.bhardlimit == (gigabytes * GIB_BYTES) as int / KIB_BLOCK_BYTES as int
                    &&& rec.bsoftlimit == rec.bhardlimit
                    &&& rec.valid == QIF_BLIMITS
                },
                QuotaSetRecord::Basic(_) => false,
            }
        },
        FsFamily::Unsupported => false,
    }
}

/// Plans the quota-set call that limits one user's disk space on the
/// partition backing `partition`: resolves the mount, checks that quotas are
/// not disabled there, converts the gigabyte count to the family's block
/// unit (overflow-checked, reported before any kernel call), and builds the
/// family-specific record with hard and soft limits set equal.
pub fn plan_set_user_disk_limit(
    table: &Vec<MountEntry>,
    user_id: u32,
    gigabytes: u64,
    partition: &str,
) -> (r: Result<QuotaSetPlan, QuotaError>)
    ensures
        match spec_resolve_mount(table@, partition.spec_bytes(), table@.len() as int) {
            Option::None => r == Result::<QuotaSetPlan, QuotaError>::Err(QuotaError::NotFound),
            Option::Some(i) => {
                if spec_family_of(bytes_of(table@[i].fs_type@)) == FsFamily::Unsupported
                    || !spec_quota_enabled(table@, partition.spec_bytes()) {
                    r == Result::<QuotaSetPlan, QuotaError>::Err(QuotaError::Unsupported)
                } else if gigabytes * GIB_BYTES > u64::MAX {
                    r == Result::<QuotaSetPlan, QuotaError>::Err(QuotaError::InvalidInput)
                } else {
                    match r {
                        Result::Ok(plan) => set_plan_ok(table@, user_id, gigabytes, i, plan),
                        Result::Err(_) => false,
                    }
                }
            },
        },
{
    proof {
        lemma_resolve_longest(table@, partition.spec_bytes(), table@.len() as int);
    }
    let resolved = match resolve_mount(table, partition) {
        Option::None => {
            return Result::Err(QuotaError::NotFound);
        },
        Option::Some(m) => m,
    };
    if matches!(resolved.family, FsFamily::Unsupported) {
        return Result::Err(QuotaError::Unsupported);
    }
    if !quota_enabled(table, partition) {
        return Result::Err(QuotaError::Unsupported);
    }
    let bytes = match gigabytes_to_bytes(gigabytes) {
        Option::None => {
            return Result::Err(QuotaError::InvalidInput);
        },
        Option::Some(b) => b,
    };
    match resolved.family {
        FsFamily::BasicBlock => {
            let blocks = bytes_to_basic_blocks(bytes);
            Result::Ok(
                QuotaSetPlan {
                    device: resolved.device,
                    command: qcmd(Q_XSETQLIM, USRQUOTA),
                    record: QuotaSetRecord::Basic(build_basic_limit_record(user_id, blocks)),
                },
            )
        },
        FsFamily::KilobyteBlock => {
            let blocks = bytes_to_kib_blocks(bytes);
            Result::Ok(
                QuotaSetPlan {
                    device: resolved.device,
                    command: qcmd(Q_SETQUOTA, USRQUOTA),
                    record: QuotaSetRecord::Kib(build_kib_limit_record(blocks)),
                },
            )
        },
        FsFamily::Unsupported => {
            // Unreachable: filtered above.
            Result::Err(QuotaError::Unsupported)
        },
    }
}

/// A planned quota-get call.
#[derive(Debug)]
pub struct QuotaGetPlan {
    pub device: String,
    pub command: u32,
    pub family: FsFamily,
}

/// Plans the quota-get call for one user on the partition backing
/// `partition`.  Unsupported families and unresolved mounts are reported as
/// errors; the read path's caller turns them into "no limit" (zero bytes).
pub fn plan_get_user_disk_quota(table: &Vec<MountEntry>, partition: &str) -> (r: Result<
    QuotaGetPlan,
    QuotaError,
>)
    ensures
        match spec_resolve_mount(table@, partition.spec_bytes(), table@.len() as int) {
            Option::None => r == Result::<QuotaGetPlan, QuotaError>::Err(QuotaError::NotFound),
            Option::Some(i) => {
                let fam = spec_family_of(bytes_of(table@[i].fs_type@));
                if fam == FsFamily::Unsupported {
                    r == Result::<QuotaGetPlan, QuotaError>::Err(QuotaError::Unsupported)
                } else {
                    match r {
                        Result::Ok(plan) => {
                            &&& plan.device@ == table@[i].device@
                            &&& plan.family == fam
                            &&& plan.command == (if fam == FsFamily::BasicBlock {
                                Q_XGETQUOTA * 256 + USRQUOTA
                            } else {
                                Q_GETQUOTA * 256 + USRQUOTA
                            })
                        },
                        Result::Err(_) => false,
                    }
                }
            },
        },
{
    proof {
        lemma_resolve_longest(table@, partition.spec_bytes(), table@.len() as int);
    }
    let resolved = match resolve_mount(table, partition) {
        Option::None => {
            return Result::Err(QuotaError::NotFound);
        },
        Option::Some(m) => m,
    };
    match resolved.family {
        FsFamily::Unsupported => Result::Err(QuotaError::Unsupported),
        FsFamily::BasicBlock => Result::Ok(
            QuotaGetPlan {
                device: resolved.device,
                command: qcmd(Q_XGETQUOTA, USRQUOTA),
                family: FsFamily::BasicBlock,
            },
        ),
        FsFamily::KilobyteBlock => Result::Ok(
            QuotaGetPlan {
                device: resolved.device,
                command: qcmd(Q_GETQUOTA, USRQUOTA),
                family: FsFamily::KilobyteBlock,
            },
        ),
    }
}

/// Saturating multiply used when normalizing block counts to bytes.
fn mul_saturating(a: u64, b: u64) -> (r: u64)
    ensures
        r == (if a * b > u64::MAX {
            u64::MAX as int
        } else {
            a * b
        }),
{
    match a.checked_mul(b) {
        Option::Some(v) => v,
        Option::None => u64::MAX,
    }
}

/// The raw outcome of a quota-get call, as handed back by the embedding
/// program: the family-specific record on success, the errno on failure.
#[derive(Debug)]
pub enum QuotaGetOutcome {
    Basic(BasicQuotaRecord),
    Kib(KibQuotaRecord),
    Failed(i32),
}

/// Normalizes a quota-get outcome to the user's hard disk limit in bytes.
/// A failed call yields zero rather than an error: absence of a disk quota
/// is an optional, additive constraint and must never block CPU or memory
/// enforcement.  Block counts too large for a byte count saturate.
pub fn quota_bytes_from_outcome(outcome: &QuotaGetOutcome) -> (r: u64)
    ensures
        match outcome {
            QuotaGetOutcome::Basic(rec) => r == (if rec.blk_hardlimit * BASIC_BLOCK_BYTES
                > u64::MAX {
                u64::MAX as int
            } else {
                rec.blk_hardlimit * BASIC_BLOCK_BYTES
            }),
            QuotaGetOutcome::Kib(rec) => r == (if rec.bhardlimit * KIB_BLOCK_BYTES > u64::MAX {
                u64::MAX as int
            } else {
                rec.bhardlimit * KIB_BLOCK_BYTES
            }),
            QuotaGetOutcome::Failed(_) => r == 0,
        },
{
    match outcome {
        QuotaGetOutcome::Basic(rec) => mul_saturating(rec.blk_hardlimit, BASIC_BLOCK_BYTES),
        QuotaGetOutcome::Kib(rec) => mul_saturating(rec.bhardlimit, KIB_BLOCK_BYTES),
        QuotaGetOutcome::Failed(_) => 0,
    }
}

/// What the kernel answered to one "get next quota entry at or above id"
/// call.
#[derive(Debug)]
pub enum NextQuotaEvent {
    /// An entry exists for this uid.
    Entry(u32),
    /// No further entries.
    NoMore,
    /// The call failed.
    Failed,
}

/// The walk over the kernel's own quota table: the next id to ask for, the
/// regular-user ids collected so far, how many entries were consumed, and
/// whether the walk has ended.
#[derive(Debug)]
pub struct QuotaEnumState {
    pub next_id: u32,
    pub found: Vec<u32>,
    pub steps: u64,
    pub done: bool,
}

/// Starts an enumeration at uid zero.
pub fn enum_start() -> (st: QuotaEnumState)
    ensures
        st.next_id == 0,
        st.found@ == Seq::<u32>::empty(),
        st.steps == 0,
        !st.done,
{
    QuotaEnumState { next_id: 0, found: Vec::new(), steps: 0, done: false }
}

/// Advances the enumeration by one kernel answer.  A terminal or failed
/// answer ends the walk at once.  An entry is collected when its uid is at
/// or above the regular-user threshold, and the walk advances to the entry's
/// uid plus one; it ends when the safety bound is consumed, when the uid
/// space is exhausted, or when the kernel hands back an id below the one
/// asked for (a misbehaving kernel must not make the walk loop).
pub fn enum_step(st: &mut QuotaEnumState, event: NextQuotaEvent, bound: u64)
    requires
        !old(st).done,
        old(st).steps < bound,
    ensures
        match event {
            NextQuotaEvent::Entry(id) => {
                if id < old(st).next_id {
                    &&& final(st).done
                    &&& final(st).found == old(st).found
                    &&& final(st).steps == old(st).steps
                } else {
                    &&& final(st).found@ == (if id >= REGULAR_USER_MIN_UID {
                        old(st).found@.push(id)
                    } else {
                        old(st).found@
                    })
                    &&& final(st).steps == old(st).steps + 1
                    &&& final(st).done == (final(st).steps >= bound || id == u32::MAX)
                    &&& (id < u32::MAX ==> final(st).next_id == id + 1)
                }
            },
            NextQuotaEvent::NoMore => {
                &&& final(st).done
                &&& final(st).found == old(st).found
                &&& final(st).steps == old(st).steps
            },
            NextQuotaEvent::Failed => {
                &&& final(st).done
                &&& final(st).found == old(st).found
                &&& final(st).steps == old(st).steps
            },
        },
{
    match event {
        NextQuotaEvent::Entry(id) => {
            if id < st.next_id {
                st.done = true;
                return ;
            }
            if id >= REGULAR_USER_MIN_UID {
                st.found.push(id);
            }
            st.steps = st.steps + 1;
            if id == u32::MAX {
                st.done = true;
            } else {
                st.next_id = id + 1;
                if st.steps >= bound {
                    st.done = true;
                }
            }
        },
        NextQuotaEvent::NoMore => {
            st.done = true;
        },
        NextQuotaEvent::Failed => {
            st.done = true;
        },
    }
}

/// The ids among the first `n` of `s` at or above the regular-user
/// threshold, in order.
pub open spec fn filter_regular(s: Seq<u32>, n: int) -> Seq<u32>
    decreases n,
{
    if n <= 0 {
        Seq::empty()
    } else {
        let p = filter_regular(s, n - 1);
        if s[n - 1] >= REGULAR_USER_MIN_UID {
            p.push(s[n - 1])
        } else {
            p
        }
    }
}

/// Walks a quota table given as the ascending list of uids that hold an
/// entry, the way the engine walks the kernel's table: repeatedly asking for
/// the next entry at or above the last id plus one until the terminal
/// answer.  Yields exactly the regular-user ids, in order, and terminates;
/// `bound` is the configurable safety bound on consumed entries.
pub fn enumerate_users_with_usage(table: &Vec<u32>, bound: u64) -> (r: Vec<u32>)
    requires
        forall|i: int, j: int| 0 <= i < j < table@.len() ==> table@[i] < table@[j],
        forall|i: int| 0 <= i < table@.len() ==> table@[i] < u32::MAX,
        table@.len() < bound,
    ensures
        r@ == filter_regular(table@, table@.len() as int),
{
    let mut st = enum_start();
    let n = table.len();
    let mut i: usize = 0;
    while i < n
        invariant
            0 <= i <= n,
            n == table@.len(),
            forall|a: int, b: int| 0 <= a < b < table@.len() ==> table@[a] < table@[b],
            forall|a: int| 0 <= a < table@.len() ==> table@[a] < u32::MAX,
            n < bound,
            !st.done,
            st.steps == i,
            st.found@ == filter_regular(table@, i as int),
            i == 0 ==> st.next_id == 0,
            i > 0 ==> st.next_id == table@[i - 1] + 1,
        decreases n - i,
    {
        let id = table[i];
        enum_step(&mut st, NextQuotaEvent::Entry(id), bound);
        i = i + 1;
    }
    enum_step(&mut st, NextQuotaEvent::NoMore, bound);
    st.found
}

/// The lifecycle of one user-partition quota pair.  There are no timers:
/// transitions are driven solely by explicit get and set calls.
#[derive(Clone, Copy, PartialEq, Eq, Structural, Debug)]
pub enum QuotaLifecycle {
    /// No quota record is in force.
    NoQuota,
    /// A set call has been issued and not yet answered.
    Configuring,
    /// A non-zero limit is in force.
    Active,
    /// The limit was cleared and awaits confirmation that nothing is in
    /// force any more.
    Reverted,
}

/// What moved the lifecycle: a set call going out, its outcome, or what a
/// get call observed.
#[derive(Clone, Copy, PartialEq, Eq, Structural, Debug)]
pub enum QuotaLifecycleEvent {
    SetIssued,
    SetSucceeded { limit_bytes: u64 },
    SetFailed,
    GetReturned { limit_bytes: u64 },
}

/// The lifecycle transition relation: issuing a set enters `Configuring`;
/// a successful set with a non-zero limit activates, with a zero limit
/// reverts; a failed set falls back to no quota; a reverted pair returns to
/// `NoQuota` once a get confirms that no limit remains.  Any other
/// observation leaves the state alone.
pub open spec fn spec_quota_lifecycle_step(
    state: QuotaLifecycle,
    event: QuotaLifecycleEvent,
) -> QuotaLifecycle {
    match event {
        QuotaLifecycleEvent::SetIssued => QuotaLifecycle::Configuring,
        QuotaLifecycleEvent::SetSucceeded { limit_bytes } => if state == QuotaLifecycle::Configuring {
            if limit_bytes > 0 {
                QuotaLifecycle::Active
            } else {
                QuotaLifecycle::Reverted
            }
        } else {
            state
        },
        QuotaLifecycleEvent::SetFailed => if state == QuotaLifecycle::Configuring {
            QuotaLifecycle::NoQuota
        } else {
            state
        },
        QuotaLifecycleEvent::GetReturned { limit_bytes } => if state == QuotaLifecycle::Reverted
            && limit_bytes == 0 {
            QuotaLifecycle::NoQuota
        } else {
            state
        },
    }
}

/// Advances the lifecycle of one user-partition pair by one observed call.
pub fn quota_lifecycle_step(state: QuotaLifecycle, event: QuotaLifecycleEvent) -> (r:
    QuotaLifecycle)
    ensures
        r == spec_quota_lifecycle_step(state, event),
{
    match event {
        QuotaLifecycleEvent::SetIssued => QuotaLifecycle::Configuring,
        QuotaLifecycleEvent::SetSucceeded { limit_bytes } => {
            if matches!(state, QuotaLifecycle::Configuring) {
                if limit_bytes > 0 {
                    QuotaLifecycle::Active
                } else {
                    QuotaLifecycle::Reverted
                }
            } else {
                state
            }
        },
        QuotaLifecycleEvent::SetFailed => {
            if matches!(state, QuotaLifecycle::Configuring) {
                QuotaLifecycle::NoQuota
            } else {
                state
            }
        },
        QuotaLifecycleEvent::GetReturned { limit_bytes } => {
            if matches!(state, QuotaLifecycle::Reverted) && limit_bytes == 0 {
                QuotaLifecycle::NoQuota
            } else {
                state
            }
        },
    }
}

} // verus!
