//! The daemon's decision core: tracking active allocations per user and
//! deciding what each request means, as pure state transitions.  The event
//! loop around it (sockets, the slice backend) lives in the embedding
//! program: it asks for a plan, performs the outside work, and commits the
//! outcome here.

use vstd::prelude::*;

use crate::policy::{PolicyError, PolicyManager, spec_validate_request};

verus! {

use vstd::string::StringSliceAdditionalSpecFns;
use vstd::string::StringExecFns;

/// An active resource allocation for one user.
#[derive(Debug, Clone)]
pub struct Allocation {
    pub uid: u32,
    pub cpu: u32,
    pub mem: String,
}

/// Whether any of the first `n` entries carries this uid.
pub open spec fn has_uid(s: Seq<Allocation>, uid: u32, n: int) -> bool
    decreases n,
{
    if n <= 0 {
        false
    } else {
        s[n - 1].uid == uid || has_uid(s, uid, n - 1)
    }
}

/// The sequence with the first entry for `uid` removed (unchanged when
/// absent).
pub open spec fn remove_first_alloc(s: Seq<Allocation>, uid: u32) -> Seq<Allocation>
    decreases s.len(),
{
    if s.len() == 0 {
        s
    } else if s[0].uid == uid {
        s.drop_first()
    } else {
        seq![s[0]] + remove_first_alloc(s.drop_first(), uid)
    }
}

/// The live allocations, one entry per user.
pub struct AllocationTable {
    pub entries: Vec<Allocation>,
}

/// Why a resource request was refused without touching the slice backend.
#[derive(Debug)]
pub enum RequestRefusal {
    /// The request breaks the policy's caps.
    PolicyRefused(PolicyError),
    /// The user already holds an active allocation and must release it
    /// first.
    AlreadyAllocated,
}

impl AllocationTable {
    /// An empty table.
    pub fn new() -> (r: AllocationTable)
        ensures
            r.entries@ == Seq::<Allocation>::empty(),
    {
        AllocationTable { entries: Vec::new() }
    }

    /// Whether this user holds an active allocation.
    pub fn contains_uid(&self, uid: u32) -> (r: bool)
        ensures
            r == has_uid(self.entries@, uid, self.entries@.len() as int),
    {
        let n = self.entries.len();
        let mut i: usize = 0;
        while i < n
            invariant
                0 <= i <= n,
                n == self.entries@.len(),
                !has_uid(self.entries@, uid, i as int),
            decreases n - i,
        {
            if self.entries[i].uid == uid {
                proof {
                    lemma_has_uid_extend(self.entries@, uid, i as int + 1, n as int);
                }
                return true;
            }
            i = i + 1;
        }
        false
    }

    /// This user's allocation, if any: the first entry carrying the uid.
    pub fn get_allocation(&self, uid: u32) -> (r: Option<&Allocation>)
        ensures
            match r {
                Option::Some(a) => exists|i: int|
                    {
                        &&& 0 <= i < self.entries@.len()
                        &&& *a == self.entries@[i]
                        &&& #[trigger] self.entries@[i].uid == uid
                        &&& forall|k: int| 0 <= k < i ==> self.entries@[k].uid != uid
                    },
                Option::None => !has_uid(self.entries@, uid, self.entries@.len() as int),
            },
    {
        let n = self.entries.len();
        let mut i: usize = 0;
        while i < n
            invariant
                0 <= i <= n,
                n == self.entries@.len(),
                !has_uid(self.entries@, uid, i as int),
                forall|k: int| 0 <= k < i ==> self.entries@[k].uid != uid,
            decreases n - i,
        {
            if self.entries[i].uid == uid {
                return Option::Some(&self.entries[i]);
            }
            i = i + 1;
        }
        Option::None
    }

    /// Records a fresh allocation once the slice backend accepted it.
    pub fn commit_allocation(&mut self, uid: u32, cpu: u32, mem: String)
        requires
            !has_uid(old(self).entries@, uid, old(self).entries@.len() as int),
        ensures
            final(self).entries@ == old(self).entries@.push(Allocation { uid, cpu, mem }),
    {
        self.entries.push(Allocation { uid, cpu, mem });
    }

    /// Drops this user's allocation once the slice backend removed it.
    pub fn remove_allocation(&mut self, uid: u32)
        ensures
            final(self).entries@ == remove_first_alloc(old(self).entries@, uid),
    {
        let n = self.entries.len();
        let mut i: usize = 0;
        while i < n
            invariant
                0 <= i <= n,
                n == self.entries@.len(),
                self.entries@ == old(self).entries@,
                forall|k: int| 0 <= k < i ==> old(self).entries@[k].uid != uid,
            decreases n - i,
        {
            if self.entries[i].uid == uid {
                self.entries.remove(i);
                proof {
                    lemma_remove_first_alloc_at(old(self).entries@, uid, i as int);
                }
                return ;
            }
            i = i + 1;
        }
        proof {
            lemma_remove_first_alloc_absent(old(self).entries@, uid);
        }
    }
}

/// When the first `uid` entry stands at index `i`, removal deletes exactly
/// that index.
proof fn lemma_remove_first_alloc_at(s: Seq<Allocation>, uid: u32, i: int)
    requires
        0 <= i < s.len(),
        s[i].uid == uid,
        forall|k: int| 0 <= k < i ==> s[k].uid != uid,
    ensures
        remove_first_alloc(s, uid) =~= s.subrange(0, i) + s.subrange(i + 1, s.len() as int),
    decreases i,
{
    if i == 0 {
        assert(remove_first_alloc(s, uid) == s.drop_first());
        assert(s.drop_first() =~= s.subrange(0, 0) + s.subrange(1, s.len() as int));
    } else {
        lemma_remove_first_alloc_at(s.drop_first(), uid, i - 1);
        assert(remove_first_alloc(s, uid) == seq![s[0]] + remove_first_alloc(s.drop_first(), uid));
        assert(s.drop_first().subrange(0, i - 1) =~= s.subrange(1, i));
        assert(s.drop_first().subrange(i, s.len() - 1) =~= s.subrange(i + 1, s.len() as int));
        assert(seq![s[0]] + (s.subrange(1, i) + s.subrange(i + 1, s.len() as int)) =~= s.subrange(
            0,
            i,
        ) + s.subrange(i + 1, s.len() as int));
    }
}

/// Removal leaves a uid-free sequence unchanged.
proof fn lemma_remove_first_alloc_absent(s: Seq<Allocation>, uid: u32)
    requires
        forall|k: int| 0 <= k < s.len() ==> s[k].uid != uid,
    ensures
        remove_first_alloc(s, uid) =~= s,
    decreases s.len(),
{
    if s.len() > 0 {
        lemma_remove_first_alloc_absent(s.drop_first(), uid);
    }
}

/// A uid found among the first `m` entries is found among the first `n`.
proof fn lemma_has_uid_extend(s: Seq<Allocation>, uid: u32, m: int, n: int)
    requires
        0 <= m <= n <= s.len(),
        has_uid(s, uid, m),
    ensures
        has_uid(s, uid, n),
    decreases n - m,
{
    if m < n {
        lemma_has_uid_extend(s, uid, m + 1, n);
    }
}

/// Decides a resource request before anything is applied: the request must
/// pass policy validation, and the user must not already hold an
/// allocation.  On `Ok` the embedding program creates the slice and, on
/// success, commits the allocation to the table.
pub fn plan_request_resources(
    policy: &PolicyManager,
    table: &AllocationTable,
    uid: u32,
    cpu: u32,
    mem: &str,
) -> (r: Result<(), RequestRefusal>)
    ensures
        match r {
            Result::Ok(()) => {
                &&& spec_validate_request(policy.config, cpu, mem.spec_bytes()) == Result::<
                    (),
                    PolicyError,
                >::Ok(())
                &&& !has_uid(table.entries@, uid, table.entries@.len() as int)
            },
            Result::Err(RequestRefusal::PolicyRefused(e)) => spec_validate_request(
                policy.config,
                cpu,
                mem.spec_bytes(),
            ) == Result::<(), PolicyError>::Err(e),
            Result::Err(RequestRefusal::AlreadyAllocated) => {
                &&& spec_validate_request(policy.config, cpu, mem.spec_bytes()) == Result::<
                    (),
                    PolicyError,
                >::Ok(())
                &&& has_uid(table.entries@, uid, table.entries@.len() as int)
            },
        },
{
    match policy.validate_request(cpu, mem) {
        Result::Err(e) => {
            return Result::Err(RequestRefusal::PolicyRefused(e));
        },
        Result::Ok(()) => {},
    }
    if table.contains_uid(uid) {
        return Result::Err(RequestRefusal::AlreadyAllocated);
    }
    Result::Ok(())
}

/// Decides a release request: there must be an allocation to release.  On
/// `Ok` the embedding program removes the slice and, on success, removes the
/// allocation from the table.
pub fn plan_release(table: &AllocationTable, uid: u32) -> (r: bool)
    ensures
        r == has_uid(table.entries@, uid, table.entries@.len() as int),
{
    table.contains_uid(uid)
}

} // verus!
