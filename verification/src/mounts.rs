//! The mount resolver: given a filesystem path, find the backing block device
//! and filesystem family by scanning a mount table.
//!
//! Matching uses the longest mount-point prefix: `/` always matches, and any
//! other candidate must either equal the path or be followed in the path by a
//! path separator.  The caller supplies the parsed mount table (one entry per
//! line of the kernel's mount list); this module never touches the disk.

use vstd::prelude::*;

verus! {

use vstd::string::StringSliceAdditionalSpecFns;

/// Byte value of the path separator `/`.
pub const SLASH: u8 = 47;

/// Byte value of the option separator `,` in a mount option string.
pub const COMMA: u8 = 44;

/// The UTF-8 bytes of a character sequence; contracts about path and option
/// strings are stated over this byte view.
pub open spec fn bytes_of(s: Seq<char>) -> Seq<u8> {
    vstd::utf8::encode_utf8(s)
}

/// The two incompatible kernel quota representations, plus the tag for
/// filesystems that support neither.
#[derive(Clone, Copy, PartialEq, Eq, Structural, Debug)]
pub enum FsFamily {
    /// Quota limits counted in 512-byte basic blocks.
    BasicBlock,
    /// Quota limits counted in 1 KiB blocks.
    KilobyteBlock,
    /// No supported quota interface.
    Unsupported,
}

/// One line of the mount table.
pub struct MountEntry {
    pub device: String,
    pub mount_point: String,
    pub fs_type: String,
    pub options: String,
}

/// Which family a filesystem type string belongs to.
pub open spec fn spec_family_of(fs: Seq<u8>) -> FsFamily {
    if fs == bytes_of("xfs"@) {
        FsFamily::BasicBlock
    } else if fs == bytes_of("ext2"@) || fs == bytes_of("ext3"@) || fs == bytes_of("ext4"@)
        || fs == bytes_of("btrfs"@) || fs == bytes_of("reiserfs"@) || fs == bytes_of("jfs"@) {
        FsFamily::KilobyteBlock
    } else {
        FsFamily::Unsupported
    }
}

/// Whether mount point `mp` covers `path`: `/` covers everything; any other
/// mount point must be a prefix of the path that ends exactly at the path's
/// end or at a path separator.
pub open spec fn covers_path(mp: Seq<u8>, path: Seq<u8>) -> bool {
    ||| mp == bytes_of("/"@)
    ||| {
        &&& mp.len() <= path.len()
        &&& path.subrange(0, mp.len() as int) == mp
        &&& (mp.len() == path.len() || path[mp.len() as int] == SLASH)
    }
}

/// The byte view of an entry's mount point.
pub open spec fn mp_bytes(e: MountEntry) -> Seq<u8> {
    bytes_of(e.mount_point@)
}

/// Index of the selected entry among the first `n`: the first entry carrying
/// the longest covering mount point, or `None` when nothing covers the path.
pub open spec fn spec_resolve_mount(table: Seq<MountEntry>, path: Seq<u8>, n: int) -> Option<int>
    decreases n,
{
    if n <= 0 {
        Option::None
    } else {
        let prev = spec_resolve_mount(table, path, n - 1);
        if covers_path(mp_bytes(table[n - 1]), path) {
            match prev {
                Option::None => Option::Some(n - 1),
                Option::Some(j) => if mp_bytes(table[n - 1]).len() > mp_bytes(table[j]).len() {
                    Option::Some(n - 1)
                } else {
                    Option::Some(j)
                },
            }
        } else {
            prev
        }
    }
}

/// Mount resolution selects a covering entry of maximal mount-point length
/// (the earliest such entry when several tie), and fails only when no entry
/// covers the path.
pub proof fn lemma_resolve_longest(table: Seq<MountEntry>, path: Seq<u8>, n: int)
    requires
        0 <= n <= table.len(),
    ensures
        spec_resolve_mount(table, path, n) is None ==> forall|j: int|
            0 <= j < n ==> !covers_path(mp_bytes(table[j]), path),
        match spec_resolve_mount(table, path, n) {
            Option::None => true,
            Option::Some(i) => {
                &&& 0 <= i < n
                &&& covers_path(mp_bytes(table[i]), path)
                &&& forall|j: int|
                    0 <= j < n && covers_path(mp_bytes(table[j]), path) ==> mp_bytes(
                        table[j],
                    ).len() <= mp_bytes(table[i]).len()
                &&& forall|j: int|
                    0 <= j < i && covers_path(mp_bytes(table[j]), path) ==> mp_bytes(
                        table[j],
                    ).len() < mp_bytes(table[i]).len()
            },
        },
    decreases n,
{
    if n > 0 {
        lemma_resolve_longest(table, path, n - 1);
    }
}

/// Compares two byte slices for equality.
pub fn bytes_eq(a: &[u8], b: &[u8]) -> (r: bool)
    ensures
        r == (a@ == b@),
{
    if a.len() != b.len() {
        return false;
    }
    let n = a.len();
    let mut i: usize = 0;
    while i < n
        invariant
            0 <= i <= n,
            n == a@.len(),
            n == b@.len(),
            forall|k: int| 0 <= k < i ==> a@[k] == b@[k],
        decreases n - i,
    {
        if a[i] != b[i] {
            return false;
        }
        i = i + 1;
    }
    proof {
        assert(a@ =~= b@);
    }
    true
}

/// Whether the window of `s` starting at `start` equals `t`.
pub fn window_eq(s: &[u8], start: usize, t: &[u8]) -> (r: bool)
    requires
        start + t@.len() <= s@.len(),
    ensures
        r == (s@.subrange(start as int, start + t@.len()) == t@),
{
    let n = t.len();
    let slen = s.len();
    let mut i: usize = 0;
    while i < n
        invariant
            0 <= i <= n,
            n == t@.len(),
            slen == s@.len(),
            start + n <= s@.len(),
            forall|k: int| 0 <= k < i ==> s@[start + k] == t@[k],
        decreases n - i,
    {
        if s[start + i] != t[i] {
            proof {
                assert(s@.subrange(start as int, start + t@.len())[i as int] == s@[start + i]);
            }
            return false;
        }
        i = i + 1;
    }
    proof {
        assert(s@.subrange(start as int, start + t@.len()) =~= t@);
    }
    true
}

/// Classifies a filesystem type string into its quota family.
pub fn family_of_fs_type(fs_type: &str) -> (r: FsFamily)
    ensures
        r == spec_family_of(fs_type.spec_bytes()),
{
    let b = fs_type.as_bytes();
    if bytes_eq(b, "xfs".as_bytes()) {
        FsFamily::BasicBlock
    } else if bytes_eq(b, "ext2".as_bytes()) || bytes_eq(b, "ext3".as_bytes()) || bytes_eq(
        b,
        "ext4".as_bytes(),
    ) || bytes_eq(b, "btrfs".as_bytes()) || bytes_eq(b, "reiserfs".as_bytes()) || bytes_eq(
        b,
        "jfs".as_bytes(),
    ) {
        FsFamily::KilobyteBlock
    } else {
        FsFamily::Unsupported
    }
}

/// Whether this mount point covers the path (see [`covers_path`]).
fn entry_covers(mount_point: &str, path: &str) -> (r: bool)
    ensures
        r == covers_path(mount_point.spec_bytes(), path.spec_bytes()),
{
    let mp = mount_point.as_bytes();
    let p = path.as_bytes();
    if bytes_eq(mp, "/".as_bytes()) {
        return true;
    }
    if mp.len() > p.len() {
        return false;
    }
    if !window_eq(p, 0, mp) {
        return false;
    }
    mp.len() == p.len() || p[mp.len()] == SLASH
}

/// The result of resolving a path against the mount table.
pub struct ResolvedMount {
    pub device: String,
    pub family: FsFamily,
    pub index: usize,
}

/// Scans the mount table for the longest mount-point prefix covering `path`
/// and returns the backing device and quota family of that entry, or `None`
/// when no entry covers the path.
pub fn resolve_mount(table: &Vec<MountEntry>, path: &str) -> (r: Option<ResolvedMount>)
    ensures
        match spec_resolve_mount(table@, path.spec_bytes(), table@.len() as int) {
            Option::None => r is None,
            Option::Some(i) => match r {
                Option::None => false,
                Option::Some(m) => {
                    &&& m.index == i
                    &&& m.device@ == table@[i].device@
                    &&& m.family == spec_family_of(bytes_of(table@[i].fs_type@))
                },
            },
        },
{
    let n = table.len();
    let mut best: Option<usize> = Option::None;
    let mut i: usize = 0;
    while i < n
        invariant
            0 <= i <= n,
            n == table@.len(),
            match best {
                Option::None => spec_resolve_mount(table@, path.spec_bytes(), i as int) is None,
                Option::Some(b) => b < i && spec_resolve_mount(table@, path.spec_bytes(), i as int)
                    == Option::Some(b as int),
            },
        decreases n - i,
    {
        let e = &table[i];
        let covered = entry_covers(e.mount_point.as_str(), path);
        proof {
            let pb = path.spec_bytes();
            assert(spec_resolve_mount(table@, pb, i as int + 1) == (if covers_path(
                mp_bytes(table@[i as int]),
                pb,
            ) {
                match spec_resolve_mount(table@, pb, i as int) {
                    Option::None => Option::Some(i as int),
                    Option::Some(j) => if mp_bytes(table@[i as int]).len() > mp_bytes(
                        table@[j],
                    ).len() {
                        Option::Some(i as int)
                    } else {
                        Option::Some(j)
                    },
                }
            } else {
                spec_resolve_mount(table@, pb, i as int)
            }));
        }
        if covered {
            best = match best {
                Option::None => Option::Some(i),
                Option::Some(j) => {
                    if e.mount_point.as_str().as_bytes().len() > table[j].mount_point.as_str().as_bytes().len() {
                        Option::Some(i)
                    } else {
                        Option::Some(j)
                    }
                },
            };
        }
        i = i + 1;
    }
    match best {
        Option::None => Option::None,
        Option::Some(j) => {
            let e = &table[j];
            Option::Some(
                ResolvedMount {
                    device: e.device.clone(),
                    family: family_of_fs_type(e.fs_type.as_str()),
                    index: j,
                },
            )
        },
    }
}

/// Whether the comma-separated option string contains `tok` as a whole token.
pub open spec fn has_option_token(s: Seq<u8>, tok: Seq<u8>) -> bool {
    exists|i: int|
        {
            &&& 0 <= i
            &&& i + tok.len() <= s.len()
            &&& #[trigger] s.subrange(i, i + tok.len()) == tok
            &&& (i == 0 || s[i - 1] == COMMA)
            &&& (i + tok.len() == s.len() || s[i + tok.len()] == COMMA)
        }
}

/// Whether a whole-token match of `t` stands at position `i` of `s`.
fn token_match_at(s: &[u8], t: &[u8], i: usize) -> (r: bool)
    requires
        i + t@.len() <= s@.len(),
    ensures
        r == {
            &&& s@.subrange(i as int, i + t@.len()) == t@
            &&& (i == 0 || s@[i - 1] == COMMA)
            &&& (i + t@.len() == s@.len() || s@[i + t@.len()] == COMMA)
        },
{
    window_eq(s, i, t) && (i == 0 || s[i - 1] == COMMA) && (i + t.len() == s.len() || s[i + t.len()]
        == COMMA)
}

/// Scans a comma-separated mount option string for a whole-token match.
pub fn has_mount_option(options: &str, tok: &str) -> (r: bool)
    ensures
        r == has_option_token(options.spec_bytes(), tok.spec_bytes()),
{
    let s = options.as_bytes();
    let t = tok.as_bytes();
    if t.len() > s.len() {
        return false;
    }
    let last = s.len() - t.len();
    let mut i: usize = 0;
    while i < last
        invariant
            0 <= i <= last,
            last == s@.len() - t@.len(),
            t@.len() <= s@.len(),
            s@ == options.spec_bytes(),
            t@ == tok.spec_bytes(),
            forall|k: int|
                0 <= k < i ==> !{
                    &&& #[trigger] s@.subrange(k, k + t@.len()) == t@
                    &&& (k == 0 || s@[k - 1] == COMMA)
                    &&& (k + t@.len() == s@.len() || s@[k + t@.len()] == COMMA)
                },
        decreases last - i,
    {
        if token_match_at(s, t, i) {
            proof {
                assert(options.spec_bytes().subrange(
                    i as int,
                    i as int + tok.spec_bytes().len(),
                ) == tok.spec_bytes());
            }
            return true;
        }
        i = i + 1;
    }
    if token_match_at(s, t, last) {
        proof {
            assert(options.spec_bytes().subrange(
                last as int,
                last as int + tok.spec_bytes().len(),
            ) == tok.spec_bytes());
        }
        return true;
    }
    assert forall|k: int| 0 <= k && k + t@.len() <= s@.len() implies !{
        &&& #[trigger] s@.subrange(k, k + t@.len()) == t@
        &&& (k == 0 || s@[k - 1] == COMMA)
        &&& (k + t@.len() == s@.len() || s@[k + t@.len()] == COMMA)
    } by {
        assert(k <= last);
    }
    false
}

/// Quota checking is enabled unless the resolved mount explicitly carries the
/// `noquota` option.  An unresolved path counts as enabled: the authoritative
/// answer is deferred to the kernel call itself, which avoids false negatives
/// from incomplete mount introspection.
pub open spec fn spec_quota_enabled(table: Seq<MountEntry>, path: Seq<u8>) -> bool {
    match spec_resolve_mount(table, path, table.len() as int) {
        Option::None => true,
        Option::Some(i) => !has_option_token(bytes_of(table[i].options@), bytes_of("noquota"@)),
    }
}

/// Whether disk quotas may be active on the mount backing `path`: fails
/// closed only on an explicit `noquota` mount option.
pub fn quota_enabled(table: &Vec<MountEntry>, path: &str) -> (r: bool)
    ensures
        r == spec_quota_enabled(table@, path.spec_bytes()),
{
    proof {
        lemma_resolve_longest(table@, path.spec_bytes(), table@.len() as int);
    }
    let resolved = resolve_mount(table, path);
    match resolved {
        Option::None => true,
        Option::Some(m) => {
            let e = &table[m.index];
            !has_mount_option(e.options.as_str(), "noquota")
        },
    }
}

} // verus!
