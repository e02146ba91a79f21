//! Shared helpers: memory-size parsing and formatting, decimal rendering,
//! slice-name validation, cgroup glob matching, and fixed paths.

use vstd::prelude::*;

use crate::osusers::effective_uid;

verus! {

use vstd::string::StringSliceAdditionalSpecFns;
use vstd::string::StringExecFns;
use vstd::string::StrSliceExecFns;

/// The decimal digit character for `d` (0 through 9).
pub open spec fn spec_digit_char(d: int) -> char {
    if d == 0 {
        '0'
    } else if d == 1 {
        '1'
    } else if d == 2 {
        '2'
    } else if d == 3 {
        '3'
    } else if d == 4 {
        '4'
    } else if d == 5 {
        '5'
    } else if d == 6 {
        '6'
    } else if d == 7 {
        '7'
    } else if d == 8 {
        '8'
    } else {
        '9'
    }
}

/// The decimal rendering of `n`, most significant digit first, no leading
/// zeros (a single `0` for zero).
pub open spec fn spec_dec(n: nat) -> Seq<char>
    decreases n,
{
    if n < 10 {
        seq![spec_digit_char(n as int)]
    } else {
        spec_dec(n / 10).push(spec_digit_char((n % 10) as int))
    }
}

/// One decimal digit as a string slice.
pub(crate) fn digit_str(d: u8) -> (r: &'static str)
    requires
        d < 10,
    ensures
        r@ == seq![spec_digit_char(d as int)],
{
    let s = match d {
        0u8 => "0",
        1u8 => "1",
        2u8 => "2",
        3u8 => "3",
        4u8 => "4",
        5u8 => "5",
        6u8 => "6",
        7u8 => "7",
        8u8 => "8",
        _ => "9",
    };
    proof {
        reveal_strlit("0");
        reveal_strlit("1");
        reveal_strlit("2");
        reveal_strlit("3");
        reveal_strlit("4");
        reveal_strlit("5");
        reveal_strlit("6");
        reveal_strlit("7");
        reveal_strlit("8");
        reveal_strlit("9");
    }
    s
}

/// Renders a number in decimal.
pub fn u64_to_string(n: u64) -> (r: String)
    ensures
        r@ == spec_dec(n as nat),
    decreases n,
{
    if n < 10 {
        String::from_str(digit_str(n as u8))
    } else {
        let mut s = u64_to_string(n / 10);
        s.append(digit_str((n % 10) as u8));
        s
    }
}

/// Renders a number in decimal.
pub fn u32_to_string(n: u32) -> (r: String)
    ensures
        r@ == spec_dec(n as nat),
{
    u64_to_string(n as u64)
}

/// One kibibyte, the formatting and parsing unit base.
pub const KIB: u64 = 1024;

pub const MIB: u64 = 1048576;

pub const GIB: u64 = 1073741824;

pub const TIB: u64 = 1099511627776;

/// Two digits after the point: `fs` hundredths, `0 <= fs < 100`.
pub open spec fn spec_two_frac(fs: int) -> Seq<char> {
    seq![spec_digit_char(fs / 10), spec_digit_char(fs % 10)]
}

/// `bytes` scaled by `unit`, rendered with two rounded decimals (round half
/// up, with carry into the whole part).
pub open spec fn spec_scaled2(bytes: nat, unit: nat) -> Seq<char> {
    let whole = bytes / unit;
    let rem = bytes % unit;
    let fs = (rem * 100 + unit / 2) / unit;
    if fs == 100 {
        spec_dec(whole + 1) + seq!['.', '0', '0']
    } else {
        spec_dec(whole) + seq!['.'] + spec_two_frac(fs as int)
    }
}

/// The human-readable rendering of a byte count: the largest binary unit
/// reached, with two decimals, or plain bytes below one kibibyte.
pub open spec fn spec_format_memory_size(bytes: nat) -> Seq<char> {
    if bytes >= TIB {
        spec_scaled2(bytes, TIB as nat) + seq!['T']
    } else if bytes >= GIB {
        spec_scaled2(bytes, GIB as nat) + seq!['G']
    } else if bytes >= MIB {
        spec_scaled2(bytes, MIB as nat) + seq!['M']
    } else if bytes >= KIB {
        spec_scaled2(bytes, KIB as nat) + seq!['K']
    } else {
        spec_dec(bytes) + seq!['B']
    }
}

/// Renders `bytes / unit` with two rounded decimals.
fn scaled2(bytes: u64, unit: u64) -> (r: String)
    requires
        KIB <= unit <= TIB,
    ensures
        r@ == spec_scaled2(bytes as nat, unit as nat),
{
    let whole = bytes / unit;
    let rem = bytes % unit;
    let num = rem * 100 + unit / 2;
    let fs = num / unit;
    proof {
        assert(rem < unit);
        assert(num < 101 * unit) by (nonlinear_arith)
            requires rem < unit && num == rem * 100 + unit / 2 && unit >= 1;
        assert(fs <= 100) by (nonlinear_arith)
            requires num < 101 * unit && fs == num / unit && unit >= 1;
        assert(whole < u64::MAX) by (nonlinear_arith)
            requires whole == bytes as int / unit as int && unit >= 1024 && bytes <= u64::MAX;
        reveal_strlit(".00");
        reveal_strlit(".");
    }
    if fs == 100 {
        let s = u64_to_string(whole + 1);
        let r = s.concat(".00");
        proof {
            assert(r@ =~= spec_scaled2(bytes as nat, unit as nat));
        }
        r
    } else {
        let mut s = u64_to_string(whole);
        s.append(".");
        s.append(digit_str((fs / 10) as u8));
        s.append(digit_str((fs % 10) as u8));
        proof {
            assert(s@ =~= spec_scaled2(bytes as nat, unit as nat));
        }
        s
    }
}

/// Formats a byte count as a human-readable size with the largest binary
/// unit reached and two rounded decimals (plain bytes under one kibibyte).
pub fn format_memory_size(bytes: u64) -> (r: String)
    ensures
        r@ == spec_format_memory_size(bytes as nat),
{
    proof {
        reveal_strlit("T");
        reveal_strlit("G");
        reveal_strlit("M");
        reveal_strlit("K");
        reveal_strlit("B");
    }
    if bytes >= TIB {
        let r = scaled2(bytes, TIB).concat("T");
        proof {
            assert(r@ =~= spec_format_memory_size(bytes as nat));
        }
        r
    } else if bytes >= GIB {
        let r = scaled2(bytes, GIB).concat("G");
        proof {
            assert(r@ =~= spec_format_memory_size(bytes as nat));
        }
        r
    } else if bytes >= MIB {
        let r = scaled2(bytes, MIB).concat("M");
        proof {
            assert(r@ =~= spec_format_memory_size(bytes as nat));
        }
        r
    } else if bytes >= KIB {
        let r = scaled2(bytes, KIB).concat("K");
        proof {
            assert(r@ =~= spec_format_memory_size(bytes as nat));
        }
        r
    } else {
        let r = u64_to_string(bytes).concat("B");
        proof {
            assert(r@ =~= spec_format_memory_size(bytes as nat));
        }
        r
    }
}

/// The default configuration directory.
pub fn get_config_dir() -> (r: String)
    ensures
        r@ == "/etc/fairshared"@,
{
    String::from_str("/etc/fairshared")
}

/// The default daemon socket path.
pub fn get_socket_path() -> (r: String)
    ensures
        r@ == "/var/run/fairshared.sock"@,
{
    String::from_str("/var/run/fairshared.sock")
}

/// Whether this process runs with root privileges (effective uid zero).
pub fn is_root() -> bool {
    effective_uid() == 0
}

/// Identity and placement of one process.
#[derive(Debug, Clone)]
pub struct ProcessInfo {
    pub pid: u32,
    pub uid: u32,
    pub gid: u32,
    pub command: String,
    pub cgroup: String,
}

/// Why a memory-size string was rejected.
#[derive(Clone, Copy, PartialEq, Eq, Structural, Debug)]
pub enum MemParseError {
    /// No numeric part, a malformed number, or an over-long fraction.
    InvalidFormat,
    /// The unit suffix is not one of B, K, KB, M, MB, G, GB, T, TB.
    UnknownUnit,
    /// The byte value does not fit in 64 bits.
    TooLarge,
    /// The value works out to zero bytes.
    Zero,
}

pub open spec fn is_space(b: u8) -> bool {
    b == 32 || b == 9 || b == 10 || b == 13
}

pub open spec fn is_dec_digit(b: u8) -> bool {
    48 <= b <= 57
}

pub open spec fn is_numchar(b: u8) -> bool {
    is_dec_digit(b) || b == 46
}

/// ASCII uppercase of one byte.
pub open spec fn upper_byte(b: u8) -> u8 {
    if 97 <= b <= 122 {
        (b - 32) as u8
    } else {
        b
    }
}

/// First index in `[i, end)` that is not whitespace, or `end`.
pub open spec fn scan_spaces(s: Seq<u8>, i: int, end: int) -> int
    decreases end - i,
{
    if i < end && is_space(s[i]) {
        scan_spaces(s, i + 1, end)
    } else {
        i
    }
}

/// End of the whitespace-trimmed prefix of `[0, j)`: the least `j'` with no
/// trailing whitespace in `[0, j')`.
pub open spec fn rscan_spaces(s: Seq<u8>, j: int) -> int
    decreases j,
{
    if j > 0 && is_space(s[j - 1]) {
        rscan_spaces(s, j - 1)
    } else {
        j
    }
}

/// First index in `[i, end)` that is neither a digit nor a dot, or `end`.
pub open spec fn scan_numchars(s: Seq<u8>, i: int, end: int) -> int
    decreases end - i,
{
    if i < end && is_numchar(s[i]) {
        scan_numchars(s, i + 1, end)
    } else {
        i
    }
}

/// First dot in `[i, end)`, or `end`.
pub open spec fn dot_pos(s: Seq<u8>, i: int, end: int) -> int
    decreases end - i,
{
    if i < end {
        if s[i] == 46 {
            i
        } else {
            dot_pos(s, i + 1, end)
        }
    } else {
        end
    }
}

/// The value of the decimal digits `[i, j)`.
pub open spec fn dec_value(s: Seq<u8>, i: int, j: int) -> int
    decreases j - i,
{
    if i >= j {
        0
    } else {
        dec_value(s, i, j - 1) * 10 + (s[j - 1] - 48)
    }
}

pub open spec fn pow10(k: nat) -> nat
    decreases k,
{
    if k == 0 {
        1
    } else {
        10 * pow10((k - 1) as nat)
    }
}

/// Multiplier of a one-letter unit.
pub open spec fn single_unit(c: u8) -> Option<int> {
    if c == 66 {
        Option::Some(1int)
    } else if c == 75 {
        Option::Some(KIB as int)
    } else if c == 77 {
        Option::Some(MIB as int)
    } else if c == 71 {
        Option::Some(GIB as int)
    } else if c == 84 {
        Option::Some(TIB as int)
    } else {
        Option::None
    }
}

/// Multiplier of the letter before a trailing `B`.
pub open spec fn prefix_unit(c: u8) -> Option<int> {
    if c == 75 {
        Option::Some(KIB as int)
    } else if c == 77 {
        Option::Some(MIB as int)
    } else if c == 71 {
        Option::Some(GIB as int)
    } else if c == 84 {
        Option::Some(TIB as int)
    } else {
        Option::None
    }
}

/// The byte multiplier named by the unit suffix `[i, j)`, case-insensitive:
/// empty or `B` is bytes; `K`, `M`, `G`, `T` with or without a trailing `B`
/// scale by the matching binary power.
pub open spec fn spec_unit_mult(s: Seq<u8>, i: int, j: int) -> Option<int> {
    if j - i == 0 {
        Option::Some(1int)
    } else if j - i == 1 {
        single_unit(upper_byte(s[i]))
    } else if j - i == 2 && upper_byte(s[i + 1]) == 66 {
        prefix_unit(upper_byte(s[i]))
    } else {
        Option::None
    }
}

/// What parsing a memory-size string yields: the numeric part (digits with
/// at most one dot, at most 15 fraction digits) times the unit multiplier,
/// rounded down to whole bytes; zero and out-of-range values are rejected,
/// as are strings without a number or with an unknown unit.
pub open spec fn spec_parse_memory_size(s: Seq<u8>) -> Result<u64, MemParseError> {
    let a = scan_spaces(s, 0, s.len() as int);
    let b = rscan_spaces(s, s.len() as int);
    if a >= b {
        Result::Err(MemParseError::InvalidFormat)
    } else {
        let e = scan_numchars(s, a, b);
        if e == a {
            Result::Err(MemParseError::InvalidFormat)
        } else {
            let d = dot_pos(s, a, e);
            if d < e && dot_pos(s, d + 1, e) < e {
                Result::Err(MemParseError::InvalidFormat)
            } else if d < e && e - a == 1 {
                Result::Err(MemParseError::InvalidFormat)
            } else {
                match spec_unit_mult(s, scan_spaces(s, e, b), b) {
                    Option::None => Result::Err(MemParseError::UnknownUnit),
                    Option::Some(m) => {
                        let fraclen = if d < e {
                            e - d - 1
                        } else {
                            0
                        };
                        if fraclen > 15 {
                            Result::Err(MemParseError::InvalidFormat)
                        } else {
                            let fstart = if d < e {
                                d + 1
                            } else {
                                e
                            };
                            let total = dec_value(s, a, d) * m + (dec_value(s, fstart, e) * m)
                                / pow10(fraclen as nat) as int;
                            if total > u64::MAX {
                                Result::Err(MemParseError::TooLarge)
                            } else if total == 0 {
                                Result::Err(MemParseError::Zero)
                            } else {
                                Result::Ok(total as u64)
                            }
                        }
                    },
                }
            }
        }
    }
}

fn is_space_b(b: u8) -> (r: bool)
    ensures
        r == is_space(b),
{
    b == 32 || b == 9 || b == 10 || b == 13
}

pub(crate) fn is_numchar_b(b: u8) -> (r: bool)
    ensures
        r == is_numchar(b),
{
    (48 <= b && b <= 57) || b == 46
}

fn upper_b(b: u8) -> (r: u8)
    ensures
        r == upper_byte(b),
{
    if 97 <= b && b <= 122 {
        b - 32
    } else {
        b
    }
}

fn scan_spaces_exec(s: &[u8], from: usize, end: usize) -> (r: usize)
    requires
        from <= end <= s@.len(),
    ensures
        r == scan_spaces(s@, from as int, end as int),
        from <= r <= end,
{
    let mut i = from;
    while i < end
        invariant
            from <= i <= end,
            end <= s@.len(),
            scan_spaces(s@, from as int, end as int) == scan_spaces(s@, i as int, end as int),
        ensures
            from <= i <= end,
            scan_spaces(s@, from as int, end as int) == i as int,
        decreases end - i,
    {
        if !is_space_b(s[i]) {
            break ;
        }
        i = i + 1;
    }
    i
}

fn rscan_spaces_exec(s: &[u8], from: usize) -> (r: usize)
    requires
        from <= s@.len(),
    ensures
        r == rscan_spaces(s@, from as int),
        r <= from,
{
    let mut j = from;
    while j > 0
        invariant
            0 <= j <= from,
            from <= s@.len(),
            rscan_spaces(s@, from as int) == rscan_spaces(s@, j as int),
        ensures
            0 <= j <= from,
            rscan_spaces(s@, from as int) == j as int,
        decreases j,
    {
        if !is_space_b(s[j - 1]) {
            break ;
        }
        j = j - 1;
    }
    j
}

pub(crate) fn scan_numchars_exec(s: &[u8], from: usize, end: usize) -> (r: usize)
    requires
        from <= end <= s@.len(),
    ensures
        r == scan_numchars(s@, from as int, end as int),
        from <= r <= end,
{
    let mut i = from;
    while i < end
        invariant
            from <= i <= end,
            end <= s@.len(),
            scan_numchars(s@, from as int, end as int) == scan_numchars(s@, i as int, end as int),
        ensures
            from <= i <= end,
            scan_numchars(s@, from as int, end as int) == i as int,
        decreases end - i,
    {
        if !is_numchar_b(s[i]) {
            break ;
        }
        i = i + 1;
    }
    i
}

pub(crate) fn dot_pos_exec(s: &[u8], from: usize, end: usize) -> (r: usize)
    requires
        from <= end <= s@.len(),
    ensures
        r == dot_pos(s@, from as int, end as int),
        from <= r <= end,
{
    let mut i = from;
    while i < end
        invariant
            from <= i <= end,
            end <= s@.len(),
            dot_pos(s@, from as int, end as int) == dot_pos(s@, i as int, end as int),
        ensures
            from <= i <= end,
            dot_pos(s@, from as int, end as int) == i as int
                || (i < end && dot_pos(s@, from as int, end as int) == i as int),
        decreases end - i,
    {
        if s[i] == 46 {
            break ;
        }
        i = i + 1;
    }
    i
}

/// Everything before the first non-numchar is a numchar.
pub(crate) proof fn lemma_scan_numchars_range(s: Seq<u8>, i: int, end: int)
    requires
        0 <= i <= end <= s.len(),
    ensures
        i <= scan_numchars(s, i, end) <= end,
        forall|k: int| i <= k < scan_numchars(s, i, end) ==> is_numchar(s[k]),
    decreases end - i,
{
    if i < end && is_numchar(s[i]) {
        lemma_scan_numchars_range(s, i + 1, end);
    }
}

/// Everything before the first dot is dot-free, and the position holds a dot
/// when it lies inside the range.
pub(crate) proof fn lemma_dot_pos_range(s: Seq<u8>, i: int, end: int)
    requires
        0 <= i <= end <= s.len(),
    ensures
        i <= dot_pos(s, i, end) <= end,
        forall|k: int| i <= k < dot_pos(s, i, end) ==> s[k] != 46,
        dot_pos(s, i, end) < end ==> s[dot_pos(s, i, end)] == 46,
    decreases end - i,
{
    if i < end && s[i] != 46 {
        lemma_dot_pos_range(s, i + 1, end);
    }
}

/// Digit runs have non-negative values bounded by the power of ten of their
/// length.
pub(crate) proof fn lemma_dec_value_bound(s: Seq<u8>, i: int, j: int)
    requires
        i <= j,
        forall|k: int| i <= k < j ==> is_dec_digit(s[k]),
    ensures
        0 <= dec_value(s, i, j) < pow10((j - i) as nat),
    decreases j - i,
{
    if i < j {
        lemma_dec_value_bound(s, i, j - 1);
    }
}

/// Extending a digit run does not decrease its value.
pub(crate) proof fn lemma_dec_value_monotone(s: Seq<u8>, i: int, j: int, j2: int)
    requires
        i <= j <= j2,
        forall|k: int| i <= k < j2 ==> is_dec_digit(s[k]),
    ensures
        dec_value(s, i, j) <= dec_value(s, i, j2),
    decreases j2 - j,
{
    if j < j2 {
        lemma_dec_value_monotone(s, i, j, j2 - 1);
        lemma_dec_value_bound(s, i, j2 - 1);
    }
}

/// Parses the digit run `[from, to)` as a 64-bit value, reporting overflow.
pub(crate) fn parse_digits_u64(s: &[u8], from: usize, to: usize) -> (r: Option<u64>)
    requires
        from <= to <= s@.len(),
        forall|k: int| from <= k < to ==> is_dec_digit(s@[k]),
    ensures
        match r {
            Option::Some(v) => v == dec_value(s@, from as int, to as int),
            Option::None => dec_value(s@, from as int, to as int) > u64::MAX,
        },
{
    let mut acc: u64 = 0;
    let mut j = from;
    while j < to
        invariant
            from <= j <= to,
            to <= s@.len(),
            forall|k: int| from <= k < to ==> is_dec_digit(s@[k]),
            acc == dec_value(s@, from as int, j as int),
        decreases to - j,
    {
        let d = s[j] - 48;
        let acc10 = match acc.checked_mul(10) {
            Option::Some(v) => v,
            Option::None => {
                proof {
                    lemma_dec_value_monotone(s@, from as int, j as int + 1, to as int);
                }
                return Option::None;
            },
        };
        acc = match acc10.checked_add(d as u64) {
            Option::Some(v) => v,
            Option::None => {
                proof {
                    lemma_dec_value_monotone(s@, from as int, j as int + 1, to as int);
                }
                return Option::None;
            },
        };
        j = j + 1;
    }
    Option::Some(acc)
}

/// Computes the unit multiplier of the suffix `[from, to)`.
fn unit_mult_exec(s: &[u8], from: usize, to: usize) -> (r: Option<u64>)
    requires
        from <= to <= s@.len(),
    ensures
        match r {
            Option::Some(v) => spec_unit_mult(s@, from as int, to as int) == Option::Some(v as int)
                && 1 <= v <= TIB,
            Option::None => spec_unit_mult(s@, from as int, to as int) is None,
        },
{
    let n = to - from;
    if n == 0 {
        Option::Some(1)
    } else if n == 1 {
        let c = upper_b(s[from]);
        if c == 66 {
            Option::Some(1)
        } else if c == 75 {
            Option::Some(KIB)
        } else if c == 77 {
            Option::Some(MIB)
        } else if c == 71 {
            Option::Some(GIB)
        } else if c == 84 {
            Option::Some(TIB)
        } else {
            Option::None
        }
    } else if n == 2 && upper_b(s[from + 1]) == 66 {
        let c = upper_b(s[from]);
        if c == 75 {
            Option::Some(KIB)
        } else if c == 77 {
            Option::Some(MIB)
        } else if c == 71 {
            Option::Some(GIB)
        } else if c == 84 {
            Option::Some(TIB)
        } else {
            Option::None
        }
    } else {
        Option::None
    }
}

/// Ten to the `k` for small `k`.
pub(crate) fn pow10_u64(k: usize) -> (r: u64)
    requires
        k <= 15,
    ensures
        r == pow10(k as nat),
        r >= 1,
{
    let mut r: u64 = 1;
    let mut i: usize = 0;
    while i < k
        invariant
            0 <= i <= k <= 15,
            r == pow10(i as nat),
            r >= 1,
        decreases k - i,
    {
        proof {
            lemma_pow10_bound(i as nat);
        }
        r = r * 10;
        i = i + 1;
    }
    r
}

/// Powers of ten grow with the exponent.
proof fn lemma_pow10_monotone(k1: nat, k2: nat)
    requires
        k1 <= k2,
    ensures
        pow10(k1) <= pow10(k2),
    decreases k2,
{
    if k1 < k2 {
        lemma_pow10_monotone(k1, (k2 - 1) as nat);
        lemma_pow10_pos((k2 - 1) as nat);
    }
}

/// Powers of ten up to the fifteenth fit comfortably in 64 bits.
pub(crate) proof fn lemma_pow10_bound(k: nat)
    requires
        k <= 15,
    ensures
        pow10(k) <= 1000000000000000,
{
    lemma_pow10_monotone(k, 15);
    reveal_with_fuel(pow10, 17);
    assert(pow10(15) == 1000000000000000);
}

/// Parses a memory size such as `8G`, `512M` or `1.5GB` to bytes.  The
/// number may carry a fraction; units are binary powers chosen by suffix;
/// whitespace around the number and unit is ignored; zero and values beyond
/// 64 bits are rejected.
pub fn parse_memory_size(size_str: &str) -> (r: Result<u64, MemParseError>)
    ensures
        r == spec_parse_memory_size(size_str.spec_bytes()),
{
    let s = size_str.as_bytes();
    let len = s.len();
    let a = scan_spaces_exec(s, 0, len);
    let b = rscan_spaces_exec(s, len);
    if a >= b {
        return Result::Err(MemParseError::InvalidFormat);
    }
    let e = scan_numchars_exec(s, a, b);
    if e == a {
        return Result::Err(MemParseError::InvalidFormat);
    }
    proof {
        lemma_scan_numchars_range(s@, a as int, b as int);
    }
    let d = dot_pos_exec(s, a, e);
    proof {
        lemma_dot_pos_range(s@, a as int, e as int);
    }
    if d < e {
        let d2 = dot_pos_exec(s, d + 1, e);
        proof {
            lemma_dot_pos_range(s@, d as int + 1, e as int);
        }
        if d2 < e {
            return Result::Err(MemParseError::InvalidFormat);
        }
        if e - a == 1 {
            return Result::Err(MemParseError::InvalidFormat);
        }
    }
    let u0 = scan_spaces_exec(s, e, b);
    let m = match unit_mult_exec(s, u0, b) {
        Option::None => {
            return Result::Err(MemParseError::UnknownUnit);
        },
        Option::Some(m) => m,
    };
    let fraclen = if d < e {
        e - d - 1
    } else {
        0
    };
    if fraclen > 15 {
        return Result::Err(MemParseError::InvalidFormat);
    }
    let fstart = if d < e {
        d + 1
    } else {
        e
    };
    proof {
        assert(forall|k: int| a <= k < d ==> is_dec_digit(s@[k]));
        assert(forall|k: int| fstart <= k < e ==> is_dec_digit(s@[k]));
    }
    let ghost gtotal = dec_value(s@, a as int, d as int) * m + (dec_value(
        s@,
        fstart as int,
        e as int,
    ) * m) / pow10(fraclen as nat) as int;
    let iv = match parse_digits_u64(s, a, d) {
        Option::None => {
            proof {
                lemma_too_large(s@, a as int, d as int, fstart as int, e as int, m as int, fraclen as nat);
            }
            return Result::Err(MemParseError::TooLarge);
        },
        Option::Some(v) => v,
    };
    let fv = match parse_digits_u64(s, fstart, e) {
        Option::None => {
            proof {
                lemma_dec_value_bound(s@, fstart as int, e as int);
                lemma_pow10_bound((e - fstart) as nat);
                assert(false);
            }
            0u64
        },
        Option::Some(v) => v,
    };
    let p = pow10_u64(fraclen);
    proof {
        assert((iv as int) * (m as int) <= (u64::MAX as int) * (TIB as int)) by (nonlinear_arith)
            requires iv <= u64::MAX && m <= TIB && iv >= 0 && m >= 0;
        assert((fv as int) * (m as int) <= (u64::MAX as int) * (TIB as int)) by (nonlinear_arith)
            requires fv <= u64::MAX && m <= TIB && fv >= 0 && m >= 0;
        assert(((fv as int) * (m as int)) / (p as int) <= (fv as int) * (m as int))
            by (nonlinear_arith)
            requires p >= 1 && (fv as int) * (m as int) >= 0;
        assert((fv as int) * (m as int) >= 0) by (nonlinear_arith)
            requires fv >= 0 && m >= 0;
    }
    let total: u128 = (iv as u128) * (m as u128) + ((fv as u128) * (m as u128)) / (p as u128);
    proof {
        assert(total == gtotal);
    }
    if total > u64::MAX as u128 {
        Result::Err(MemParseError::TooLarge)
    } else if total == 0 {
        Result::Err(MemParseError::Zero)
    } else {
        Result::Ok(total as u64)
    }
}

/// When the whole part alone overflows 64 bits, the total does too.
proof fn lemma_too_large(s: Seq<u8>, a: int, d: int, fstart: int, e: int, m: int, fraclen: nat)
    requires
        a <= d,
        fstart <= e,
        forall|k: int| a <= k < d ==> is_dec_digit(s[k]),
        forall|k: int| fstart <= k < e ==> is_dec_digit(s[k]),
        1 <= m,
        dec_value(s, a, d) > u64::MAX,
    ensures
        dec_value(s, a, d) * m + (dec_value(s, fstart, e) * m) / pow10(fraclen) as int > u64::MAX,
{
    let iv = dec_value(s, a, d);
    let fv = dec_value(s, fstart, e);
    lemma_dec_value_bound(s, fstart, e);
    assert(pow10(fraclen) >= 1) by {
        lemma_pow10_pos(fraclen);
    }
    assert(iv * m >= iv) by (nonlinear_arith)
        requires iv >= 0 && m >= 1;
    assert(fv * m >= 0) by (nonlinear_arith)
        requires fv >= 0 && m >= 1;
    assert((fv * m) / pow10(fraclen) as int >= 0) by (nonlinear_arith)
        requires fv * m >= 0 && pow10(fraclen) >= 1;
}

pub(crate) proof fn lemma_pow10_pos(k: nat)
    ensures
        pow10(k) >= 1,
    decreases k,
{
    if k > 0 {
        lemma_pow10_pos((k - 1) as nat);
    }
}

/// Why a slice name was rejected.
#[derive(Clone, Copy, PartialEq, Eq, Structural, Debug)]
pub enum SliceNameError {
    /// The name does not end in `.slice`.
    NotSlice,
    /// Nothing stands before the `.slice` suffix.
    EmptyStem,
    /// The stem holds a byte outside the systemd unit-name alphabet.
    BadChar,
}

/// Bytes allowed in a systemd unit-name stem: ASCII letters and digits,
/// `:` `-` `_` `.` `\` `@`.
pub open spec fn is_unit_name_byte(b: u8) -> bool {
    ||| 48 <= b <= 57
    ||| 65 <= b <= 90
    ||| 97 <= b <= 122
    ||| b == 58
    ||| b == 45
    ||| b == 95
    ||| b == 46
    ||| b == 92
    ||| b == 64
}

/// A well-formed slice unit name: a non-empty stem of unit-name bytes
/// followed by `.slice`.
pub open spec fn spec_valid_slice_name(s: Seq<u8>) -> Result<(), SliceNameError> {
    let suffix = bytes_of_str(".slice"@);
    if s.len() < suffix.len() || s.subrange(s.len() - suffix.len(), s.len() as int) != suffix {
        Result::Err(SliceNameError::NotSlice)
    } else if s.len() == suffix.len() {
        Result::Err(SliceNameError::EmptyStem)
    } else if exists|k: int| 0 <= k < s.len() - suffix.len() && !is_unit_name_byte(#[trigger] s[k]) {
        Result::Err(SliceNameError::BadChar)
    } else {
        Result::Ok(())
    }
}

/// The UTF-8 bytes of a character sequence.
pub open spec fn bytes_of_str(s: Seq<char>) -> Seq<u8> {
    vstd::utf8::encode_utf8(s)
}

fn is_unit_name_byte_exec(b: u8) -> (r: bool)
    ensures
        r == is_unit_name_byte(b),
{
    (48 <= b && b <= 57) || (65 <= b && b <= 90) || (97 <= b && b <= 122) || b == 58 || b == 45
        || b == 95 || b == 46 || b == 92 || b == 64
}

/// Checks that a name is a well-formed slice unit name: it must end in
/// `.slice`, with a non-empty stem of letters, digits and the unit-name
/// punctuation before it.
pub fn validate_slice_name(name: &str) -> (r: Result<(), SliceNameError>)
    ensures
        r == spec_valid_slice_name(name.spec_bytes()),
{
    let s = name.as_bytes();
    let suffix = ".slice".as_bytes();
    let n = s.len();
    let sn = suffix.len();
    if n < sn || !crate::mounts::window_eq(s, n - sn, suffix) {
        proof {
            if n >= sn {
                assert(s@.subrange(n - sn, n as int) != suffix@);
            }
        }
        return Result::Err(SliceNameError::NotSlice);
    }
    proof {
        assert(s@.subrange(n - sn, n as int) == suffix@);
    }
    if n == sn {
        return Result::Err(SliceNameError::EmptyStem);
    }
    let stem_len = n - sn;
    let mut i: usize = 0;
    while i < stem_len
        invariant
            0 <= i <= stem_len,
            stem_len <= s@.len(),
            s@ == name.spec_bytes(),
            stem_len == name.spec_bytes().len() - bytes_of_str(".slice"@).len(),
            stem_len >= 1,
            name.spec_bytes().subrange(
                name.spec_bytes().len() - bytes_of_str(".slice"@).len(),
                name.spec_bytes().len() as int,
            ) == bytes_of_str(".slice"@),
            forall|k: int| 0 <= k < i ==> is_unit_name_byte(#[trigger] s@[k]),
        decreases stem_len - i,
    {
        if !is_unit_name_byte_exec(s[i]) {
            proof {
                assert(0 <= i < name.spec_bytes().len() - bytes_of_str(".slice"@).len());
                assert(!is_unit_name_byte(name.spec_bytes()[i as int]));
            }
            return Result::Err(SliceNameError::BadChar);
        }
        i = i + 1;
    }
    Result::Ok(())
}

/// Glob matching: `*` matches any run of bytes, `?` matches one byte, any
/// other byte matches itself.
pub open spec fn glob_match(p: Seq<u8>, s: Seq<u8>) -> bool
    decreases p.len() + s.len(),
{
    if p.len() == 0 {
        s.len() == 0
    } else if p[0] == 42 {
        glob_match(p.drop_first(), s) || (s.len() > 0 && glob_match(p, s.drop_first()))
    } else {
        s.len() > 0 && (p[0] == 63 || p[0] == s[0]) && glob_match(p.drop_first(), s.drop_first())
    }
}

/// Matches starting from positions `pi` of the pattern and `si` of the
/// subject, mirroring [`glob_match`] on the remaining suffixes.
fn glob_match_at(p: &[u8], s: &[u8], pi: usize, si: usize) -> (r: bool)
    requires
        pi <= p@.len(),
        si <= s@.len(),
    ensures
        r == glob_match(p@.skip(pi as int), s@.skip(si as int)),
    decreases p@.len() - pi + (s@.len() - si),
{
    let plen = p.len();
    let slen = s.len();
    proof {
        if pi < plen {
            assert(p@.skip(pi as int)[0] == p@[pi as int]);
            assert(p@.skip(pi as int).drop_first() =~= p@.skip(pi as int + 1));
        }
        if si < slen {
            assert(s@.skip(si as int)[0] == s@[si as int]);
            assert(s@.skip(si as int).drop_first() =~= s@.skip(si as int + 1));
        }
        assert(p@.skip(pi as int).len() == plen - pi);
        assert(s@.skip(si as int).len() == slen - si);
    }
    if pi == plen {
        si == slen
    } else if p[pi] == 42 {
        if glob_match_at(p, s, pi + 1, si) {
            true
        } else if si < slen {
            glob_match_at(p, s, pi, si + 1)
        } else {
            false
        }
    } else {
        if si == slen {
            return false;
        }
        if p[pi] == 63 || p[pi] == s[si] {
            glob_match_at(p, s, pi + 1, si + 1)
        } else {
            false
        }
    }
}

/// Whether a cgroup path matches a glob pattern with `*` and `?` wildcards.
pub fn match_cgroup_pattern(pattern: &str, cgroup_path: &str) -> (r: bool)
    ensures
        r == glob_match(pattern.spec_bytes(), cgroup_path.spec_bytes()),
{
    let p = pattern.as_bytes();
    let s = cgroup_path.as_bytes();
    proof {
        assert(p@.skip(0) =~= p@);
        assert(s@.skip(0) =~= s@);
    }
    glob_match_at(p, s, 0, 0)
}

} // verus!
