//! Parsers and conversions for the resource probes.
//!
//! While the child runs, its cumulative CPU time is read from the first
//! line of the procfs stat file — fields 13 and 14 (zero-based) are utime
//! and stime in clock ticks — and its peak virtual memory from the status
//! file's `VmPeak:` line, in kibibytes. At reap, the kernel's accounting
//! hands seconds/microseconds pairs and a peak resident size. The reading
//! of those files and of the kernel struct happens outside the library;
//! everything here works on the bytes and numbers handed in. Only the
//! clock-tick rate itself comes from the system, through one trusted call.

use vstd::prelude::*;

use crate::checker::{is_space, is_space_byte, line_split, split_lines, views};

verus! {

/// A decimal digit byte.
pub open spec fn is_digit(b: u8) -> bool {
    48 <= b <= 57
}

/// Whether every byte of `s` is a decimal digit.
pub open spec fn all_digits(s: Seq<u8>) -> bool {
    forall|i: int| 0 <= i < s.len() ==> is_digit(s[i])
}

/// The value of `s` read as a decimal numeral, most significant digit
/// first.
pub open spec fn dec_val(s: Seq<u8>) -> int
    decreases s.len(),
{
    if s.len() == 0 {
        0
    } else {
        10 * dec_val(s.drop_last()) + (s.last() - 48)
    }
}

/// The length of the whitespace-free run at the head of `s`.
pub open spec fn token_end(s: Seq<u8>) -> int
    decreases s.len(),
{
    if s.len() == 0 {
        0
    } else if is_space(s[0]) {
        0
    } else {
        1 + token_end(s.drop_first())
    }
}

/// The whitespace-separated tokens of `s`.
pub open spec fn tokens(s: Seq<u8>) -> Seq<Seq<u8>>
    decreases s.len(),
{
    if s.len() == 0 {
        seq![]
    } else if is_space(s[0]) {
        tokens(s.drop_first())
    } else {
        let k = token_end(s);
        if 0 < k <= s.len() {
            seq![s.take(k)] + tokens(s.skip(k))
        } else {
            seq![s]
        }
    }
}

/// An integer clipped to the range of `u64`.
pub open spec fn cap_u64(x: int) -> int {
    if x > u64::MAX {
        u64::MAX as int
    } else {
        x
    }
}

proof fn lemma_dec_val_nonneg(s: Seq<u8>)
    requires
        all_digits(s),
    ensures
        dec_val(s) >= 0,
    decreases s.len(),
{
    if s.len() > 0 {
        assert(all_digits(s.drop_last()));
        lemma_dec_val_nonneg(s.drop_last());
    }
}

proof fn lemma_dec_val_prefix_le(s: Seq<u8>, j: int)
    requires
        all_digits(s),
        0 <= j <= s.len(),
    ensures
        dec_val(s.take(j)) <= dec_val(s),
    decreases s.len(),
{
    if j == s.len() {
        assert(s.take(j) =~= s);
    } else {
        assert(all_digits(s.drop_last()));
        assert(s.drop_last().take(j) =~= s.take(j));
        lemma_dec_val_prefix_le(s.drop_last(), j);
        lemma_dec_val_nonneg(s.drop_last());
    }
}

proof fn lemma_token_end_at(t: Seq<u8>, k: int)
    requires
        0 <= k <= t.len(),
        forall|j: int| 0 <= j < k ==> !is_space(t[j]),
        k == t.len() || is_space(t[k]),
    ensures
        token_end(t) == k,
    decreases k,
{
    if k > 0 {
        lemma_token_end_at(t.drop_first(), k - 1);
    }
}

/// Splits a byte string into its whitespace-separated tokens.
pub fn split_tokens(s: &Vec<u8>) -> (r: Vec<Vec<u8>>)
    ensures
        views(r@) == tokens(s@),
{
    let n = s.len();
    let mut r: Vec<Vec<u8>> = Vec::new();
    let mut pos: usize = 0;
    proof {
        assert(views(r@) =~= Seq::<Seq<u8>>::empty());
        assert(s@.skip(0) =~= s@);
    }
    while pos < n
        invariant
            pos <= n,
            n == s@.len(),
            tokens(s@) == views(r@) + tokens(s@.skip(pos as int)),
        decreases n - pos,
    {
        if is_space_byte(s[pos]) {
            proof {
                assert(s@.skip(pos as int).drop_first() =~= s@.skip(pos as int + 1));
            }
            pos = pos + 1;
        } else {
            let ghost rest = s@.skip(pos as int);
            let ghost prev = r@;
            let mut j: usize = pos;
            while j < n && !is_space_byte(s[j])
                invariant
                    pos <= j <= n,
                    n == s@.len(),
                    forall|k: int| pos <= k < j ==> !is_space(s@[k]),
                decreases n - j,
            {
                j = j + 1;
            }
            proof {
                assert(forall|k: int| 0 <= k < j - pos as int ==> !is_space(rest[k]));
                if j < n {
                    assert(is_space(rest[j - pos as int]));
                }
                lemma_token_end_at(rest, j - pos as int);
                assert(rest.take(j - pos as int) =~= s@.subrange(pos as int, j as int));
                assert(rest.skip(j - pos as int) =~= s@.skip(j as int));
            }
            let tok = crate::checker::copy_range(s, pos, j);
            r.push(tok);
            pos = j;
            proof {
                assert(views(r@) =~= views(prev).push(tok@));
                assert(views(prev).push(tok@) + tokens(s@.skip(pos as int)) =~= views(prev) + (
                seq![tok@] + tokens(s@.skip(pos as int))));
            }
        }
    }
    proof {
        assert(s@.skip(n as int) =~= Seq::<u8>::empty());
        assert(views(r@) + tokens(s@.skip(n as int)) =~= views(r@));
    }
    r
}

/// Reads a token as a decimal `u64`: the token must be non-empty, all
/// digits, and fit.
pub fn parse_u64(tok: &Vec<u8>) -> (r: Option<u64>)
    ensures
        match r {
            Some(v) => tok@.len() > 0 && all_digits(tok@) && v as int == dec_val(tok@),
            None => tok@.len() == 0 || !all_digits(tok@) || dec_val(tok@) > u64::MAX,
        },
{
    if tok.len() == 0 {
        return None;
    }
    let mut v: u64 = 0;
    let mut i: usize = 0;
    proof {
        assert(tok@.take(0) =~= Seq::<u8>::empty());
    }
    while i < tok.len()
        invariant
            i <= tok@.len(),
            all_digits(tok@.take(i as int)),
            v as int == dec_val(tok@.take(i as int)),
        decreases tok@.len() - i,
    {
        let b = tok[i];
        if b < 48 || b > 57 {
            return None;
        }
        let d = (b - 48) as u64;
        let ghost pre = tok@.take(i as int);
        proof {
            assert(tok@.take(i as int + 1).drop_last() =~= pre);
            assert(all_digits(tok@.take(i as int + 1)));
        }
        let w = match v.checked_mul(10) {
            Some(w) => w,
            None => {
                proof {
                    assert(dec_val(tok@.take(i as int + 1)) > u64::MAX);
                    if all_digits(tok@) {
                        lemma_dec_val_prefix_le(tok@, i as int + 1);
                    }
                }
                return None;
            },
        };
        let w2 = match w.checked_add(d) {
            Some(w2) => w2,
            None => {
                proof {
                    assert(dec_val(tok@.take(i as int + 1)) > u64::MAX);
                    if all_digits(tok@) {
                        lemma_dec_val_prefix_le(tok@, i as int + 1);
                    }
                }
                return None;
            },
        };
        v = w2;
        i = i + 1;
    }
    proof {
        assert(tok@.take(tok@.len() as int) =~= tok@);
    }
    Some(v)
}

/// The CPU time, in clock ticks, that a procfs stat record reports: the
/// sum of its fields 13 and 14 (utime and stime, zero-based), if the
/// record has them as numerals whose sum fits.
pub open spec fn spec_stat_ticks(content: Seq<u8>) -> Option<int> {
    let ts = tokens(content);
    if ts.len() >= 15 && ts[13].len() > 0 && all_digits(ts[13]) && ts[14].len() > 0 && all_digits(
        ts[14],
    ) && dec_val(ts[13]) + dec_val(ts[14]) <= u64::MAX {
        Some(dec_val(ts[13]) + dec_val(ts[14]))
    } else {
        None
    }
}

/// Reads the cumulative CPU time, in clock ticks, from the contents of a
/// procfs stat file.
pub fn stat_cpu_ticks(content: &Vec<u8>) -> (r: Option<u64>)
    ensures
        match r {
            Some(v) => spec_stat_ticks(content@) == Some(v as int),
            None => spec_stat_ticks(content@) is None,
        },
{
    let ts = split_tokens(content);
    if ts.len() < 15 {
        return None;
    }
    let ghost tss = tokens(content@);
    proof {
        assert(tss[13] == ts@[13]@);
        assert(tss[14] == ts@[14]@);
    }
    let utime = match parse_u64(&ts[13]) {
        Some(v) => v,
        None => {
            proof {
                if all_digits(tss[14]) {
                    lemma_dec_val_nonneg(tss[14]);
                }
            }
            return None;
        },
    };
    let stime = match parse_u64(&ts[14]) {
        Some(v) => v,
        None => {
            proof {
                if all_digits(tss[13]) {
                    lemma_dec_val_nonneg(tss[13]);
                }
            }
            return None;
        },
    };
    match utime.checked_add(stime) {
        Some(total) => Some(total),
        None => None,
    }
}

/// Converts clock ticks to milliseconds at the given tick rate, clipping
/// at the range of `u64`.
pub fn ticks_to_ms(ticks: u64, ticks_per_sec: u64) -> (r: u64)
    requires
        ticks_per_sec >= 1,
    ensures
        r as int == cap_u64(ticks * 1000 / (ticks_per_sec as int)),
{
    let t = (ticks as u128) * 1000 / (ticks_per_sec as u128);
    if t > u64::MAX as u128 {
        u64::MAX
    } else {
        t as u64
    }
}

/// The CPU time in milliseconds that a procfs stat record reports, at the
/// given clock-tick rate.
pub fn stat_cpu_ms(content: &Vec<u8>, ticks_per_sec: u64) -> (r: Option<u64>)
    requires
        ticks_per_sec >= 1,
    ensures
        match spec_stat_ticks(content@) {
            Some(t) => r matches Some(v) && v as int == cap_u64(t * 1000 / (ticks_per_sec as int)),
            None => r is None,
        },
{
    match stat_cpu_ticks(content) {
        Some(t) => Some(ticks_to_ms(t, ticks_per_sec)),
        None => None,
    }
}

/// The kernel-accounted CPU time in milliseconds: user and system time,
/// each given as seconds and microseconds, summed — clipped at `u64`.
pub fn rusage_time_ms(utime_sec: u64, utime_usec: u64, stime_sec: u64, stime_usec: u64) -> (r:
    u64)
    ensures
        r as int == cap_u64(
            utime_sec * 1000 + utime_usec / 1000 + stime_sec * 1000 + stime_usec / 1000,
        ),
{
    let t = (utime_sec as u128) * 1000 + (utime_usec as u128) / 1000 + (stime_sec as u128) * 1000
        + (stime_usec as u128) / 1000;
    if t > u64::MAX as u128 {
        u64::MAX
    } else {
        t as u64
    }
}

/// The kernel-accounted peak resident memory in megabytes, from kibibytes.
pub fn rusage_memory_mb(maxrss_kib: u64) -> (r: u64)
    ensures
        r == maxrss_kib / 1024,
{
    maxrss_kib / 1024
}

/// The bytes of the tag that opens a peak-memory line of a procfs status
/// file: `VmPeak:`.
pub open spec fn vm_peak_tag() -> Seq<u8> {
    seq![86u8, 109u8, 80u8, 101u8, 97u8, 107u8, 58u8]
}

/// Whether the line opens with the peak-memory tag.
pub open spec fn starts_with_vm_peak(l: Seq<u8>) -> bool {
    l.len() >= 7 && l.take(7) == vm_peak_tag()
}

/// The index of the first peak-memory line, or -1 if there is none.
pub open spec fn first_vm_peak_idx(ls: Seq<Seq<u8>>) -> int
    decreases ls.len(),
{
    if ls.len() == 0 {
        -1
    } else if starts_with_vm_peak(ls[0]) {
        0
    } else {
        let r = first_vm_peak_idx(ls.drop_first());
        if r < 0 {
            -1
        } else {
            r + 1
        }
    }
}

proof fn lemma_first_vm_peak_found(ls: Seq<Seq<u8>>, k: int)
    requires
        0 <= k < ls.len(),
        starts_with_vm_peak(ls[k]),
        forall|j: int| 0 <= j < k ==> !starts_with_vm_peak(ls[j]),
    ensures
        first_vm_peak_idx(ls) == k,
    decreases k,
{
    if k > 0 {
        lemma_first_vm_peak_found(ls.drop_first(), k - 1);
    }
}

proof fn lemma_first_vm_peak_none(ls: Seq<Seq<u8>>)
    requires
        forall|j: int| 0 <= j < ls.len() ==> !starts_with_vm_peak(ls[j]),
    ensures
        first_vm_peak_idx(ls) == -1,
    decreases ls.len(),
{
    if ls.len() > 0 {
        lemma_first_vm_peak_none(ls.drop_first());
    }
}

/// The peak memory, in megabytes, that a procfs status record reports: the
/// second token of its first `VmPeak:` line, read as kibibytes and divided
/// by 1024; zero when no such line exists; nothing when the line is
/// malformed.
pub open spec fn spec_vm_peak_mb(content: Seq<u8>) -> Option<int> {
    let ls = line_split(content);
    let i = first_vm_peak_idx(ls);
    if i < 0 {
        Some(0)
    } else {
        let ts = tokens(ls[i]);
        if ts.len() >= 2 && ts[1].len() > 0 && all_digits(ts[1]) && dec_val(ts[1]) <= u64::MAX {
            Some(dec_val(ts[1]) / 1024)
        } else {
            None
        }
    }
}

/// Whether a line of the status file opens with the peak-memory tag.
fn line_has_vm_peak_tag(l: &Vec<u8>) -> (r: bool)
    ensures
        r == starts_with_vm_peak(l@),
{
    if l.len() < 7 {
        return false;
    }
    let r = l[0] == 86 && l[1] == 109 && l[2] == 80 && l[3] == 101 && l[4] == 97 && l[5] == 107
        && l[6] == 58;
    proof {
        if r {
            assert(l@.take(7) =~= vm_peak_tag());
        } else {
            assert(l@.take(7) != vm_peak_tag());
        }
    }
    r
}

/// Reads the peak virtual memory, in megabytes, from the contents of a
/// procfs status file.
pub fn status_vm_peak_mb(content: &Vec<u8>) -> (r: Option<u64>)
    ensures
        match r {
            Some(v) => spec_vm_peak_mb(content@) == Some(v as int),
            None => spec_vm_peak_mb(content@) is None,
        },
{
    let lines = split_lines(content);
    let ghost ls = line_split(content@);
    let mut i: usize = 0;
    while i < lines.len()
        invariant
            i <= lines@.len(),
            ls == line_split(content@),
            views(lines@) == ls,
            ls.len() == lines@.len(),
            forall|j: int| 0 <= j < i ==> !starts_with_vm_peak(ls[j]),
        decreases lines@.len() - i,
    {
        proof {
            assert(ls[i as int] == lines@[i as int]@);
        }
        if line_has_vm_peak_tag(&lines[i]) {
            proof {
                lemma_first_vm_peak_found(ls, i as int);
            }
            let ts = split_tokens(&lines[i]);
            if ts.len() < 2 {
                return None;
            }
            proof {
                assert(tokens(ls[i as int])[1] == ts@[1]@);
            }
            match parse_u64(&ts[1]) {
                Some(kib) => {
                    return Some(rusage_memory_mb(kib));
                },
                None => {
                    return None;
                },
            }
        }
        i = i + 1;
    }
    proof {
        lemma_first_vm_peak_none(ls);
    }
    Some(0)
}

/// Relies on nix::unistd::sysconf with SysconfVar::CLK_TCK: the number of
/// kernel clock ticks per second. The value comes from the live system, so
/// nothing is promised of it; an error or an absent value is `None`.
#[verifier::external_body]
fn sysconf_clk_tck() -> Option<i64> {
    match nix::unistd::sysconf(nix::unistd::SysconfVar::CLK_TCK) {
        Ok(Some(v)) => Some(v),
        Ok(None) => None,
        Err(_) => None,
    }
}

/// The system's clock-tick rate, when the kernel reports a usable (that
/// is, positive) one.
pub fn clock_ticks_per_sec() -> (r: Option<u64>)
    ensures
        r matches Some(t) ==> t >= 1,
{
    match sysconf_clk_tck() {
        Some(v) => if v >= 1 {
            Some(v as u64)
        } else {
            None
        },
        None => None,
    }
}

} // verus!
