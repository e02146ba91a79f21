//! The persisted allocation ledger as a value: one record per user, keyed
//! by uid string.  Reading, locking and writing the state file, and stamping
//! records with the current time, is the embedding program's job; it hands
//! the parsed records here and writes back what these transitions produce.

use vstd::prelude::*;

verus! {

use vstd::string::StringSliceAdditionalSpecFns;

/// One user's recorded allocation.
#[derive(Debug, Clone)]
pub struct UserAllocation {
    pub uid: String,
    pub username: String,
    pub cpu_cores: u32,
    pub mem_gb: u32,
    pub timestamp: String,
}

/// First index among `[0, n)` whose record carries this uid, or `n`.
pub open spec fn uid_index(s: Seq<UserAllocation>, uid: Seq<char>, n: int) -> int
    decreases n,
{
    if n <= 0 {
        0
    } else if uid_index(s, uid, n - 1) < n - 1 {
        uid_index(s, uid, n - 1)
    } else if s[n - 1].uid@ == uid {
        n - 1
    } else {
        n
    }
}

/// The state file's content: allocation records with pairwise distinct uids.
pub struct StateFile {
    pub allocations: Vec<UserAllocation>,
}

impl StateFile {
    /// An empty state.
    pub fn new() -> (r: StateFile)
        ensures
            r.allocations@ == Seq::<UserAllocation>::empty(),
    {
        StateFile { allocations: Vec::new() }
    }

    /// Inserts or replaces the record for `alloc.uid`: an existing record
    /// with the same uid is overwritten in place, otherwise the record is
    /// appended.
    pub fn upsert_allocation(&mut self, alloc: UserAllocation)
        ensures
            ({
                let s = old(self).allocations@;
                let i = uid_index(s, alloc.uid@, s.len() as int);
                if i < s.len() {
                    final(self).allocations@ == s.update(i, alloc)
                } else {
                    final(self).allocations@ == s.push(alloc)
                }
            }),
    {
        let n = self.allocations.len();
        let mut i: usize = 0;
        while i < n
            invariant
                0 <= i <= n,
                n == self.allocations@.len(),
                self.allocations@ == old(self).allocations@,
                uid_index(old(self).allocations@, alloc.uid@, i as int) == i as int,
            decreases n - i,
        {
            let same = crate::mounts::bytes_eq(
                self.allocations[i].uid.as_str().as_bytes(),
                alloc.uid.as_str().as_bytes(),
            );
            proof {
                lemma_bytes_eq_chars(self.allocations@[i as int].uid@, alloc.uid@);
            }
            if same {
                proof {
                    lemma_uid_index_extend(old(self).allocations@, alloc.uid@, i as int, n as int);
                }
                self.allocations.set(i, alloc);
                return ;
            }
            i = i + 1;
        }
        self.allocations.push(alloc);
    }

    /// Removes the record for `uid`, when one exists.
    pub fn remove_allocation(&mut self, uid: &str)
        ensures
            ({
                let s = old(self).allocations@;
                let i = uid_index(s, uid@, s.len() as int);
                if i < s.len() {
                    final(self).allocations@ == s.subrange(0, i) + s.subrange(
                        i + 1,
                        s.len() as int,
                    )
                } else {
                    final(self).allocations@ == s
                }
            }),
    {
        let n = self.allocations.len();
        let mut i: usize = 0;
        while i < n
            invariant
                0 <= i <= n,
                n == self.allocations@.len(),
                self.allocations@ == old(self).allocations@,
                uid_index(old(self).allocations@, uid@, i as int) == i as int,
            decreases n - i,
        {
            let same = crate::mounts::bytes_eq(
                self.allocations[i].uid.as_str().as_bytes(),
                uid.as_bytes(),
            );
            proof {
                lemma_bytes_eq_chars(self.allocations@[i as int].uid@, uid@);
            }
            if same {
                proof {
                    lemma_uid_index_extend(old(self).allocations@, uid@, i as int, n as int);
                }
                self.allocations.remove(i);
                return ;
            }
            i = i + 1;
        }
    }

    /// The record for `uid`, if any.
    pub fn get_allocation(&self, uid: &str) -> (r: Option<&UserAllocation>)
        ensures
            ({
                let s = self.allocations@;
                let i = uid_index(s, uid@, s.len() as int);
                match r {
                    Option::Some(a) => i < s.len() && *a == s[i],
                    Option::None => i == s.len(),
                }
            }),
    {
        let n = self.allocations.len();
        let mut i: usize = 0;
        while i < n
            invariant
                0 <= i <= n,
                n == self.allocations@.len(),
                uid_index(self.allocations@, uid@, i as int) == i as int,
            decreases n - i,
        {
            let same = crate::mounts::bytes_eq(
                self.allocations[i].uid.as_str().as_bytes(),
                uid.as_bytes(),
            );
            proof {
                lemma_bytes_eq_chars(self.allocations@[i as int].uid@, uid@);
            }
            if same {
                proof {
                    lemma_uid_index_extend(self.allocations@, uid@, i as int, n as int);
                }
                return Option::Some(&self.allocations[i]);
            }
            i = i + 1;
        }
        Option::None
    }
}

/// Equal byte encodings mean equal character sequences.
proof fn lemma_bytes_eq_chars(a: Seq<char>, b: Seq<char>)
    ensures
        (vstd::utf8::encode_utf8(a) == vstd::utf8::encode_utf8(b)) ==> a == b,
{
    if vstd::utf8::encode_utf8(a) == vstd::utf8::encode_utf8(b) {
        vstd::utf8::encode_utf8_decode_utf8(a);
        vstd::utf8::encode_utf8_decode_utf8(b);
    }
}

/// A match found at index `i` stays the first match for any longer prefix.
proof fn lemma_uid_index_extend(s: Seq<UserAllocation>, uid: Seq<char>, i: int, n: int)
    requires
        0 <= i < n <= s.len(),
        uid_index(s, uid, i) == i,
        s[i].uid@ == uid,
    ensures
        uid_index(s, uid, n) == i,
    decreases n - i,
{
    if n == i + 1 {
    } else {
        lemma_uid_index_extend(s, uid, i, n - 1);
    }
}

} // verus!
