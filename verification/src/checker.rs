//! The line-oriented output checker.
//!
//! A child's standard output is compared against a reference answer, line
//! by line. A line is the longest run of bytes up to and including the
//! next newline (or the end of the stream); before comparing, leading and
//! trailing ASCII whitespace (space, tab, CR, LF) is stripped from both
//! sides. The first mismatch — differing trimmed lines, or one stream
//! ending while the other still has a line — is reported with its 1-based
//! line number.

use vstd::prelude::*;
use vstd::string::StringExecFns;

use crate::numfmt::{append_dec, dec_digits};

verus! {

/// ASCII whitespace as the checker strips it: space, tab, CR, LF.
pub open spec fn is_space(b: u8) -> bool {
    b == 32 || b == 9 || b == 13 || b == 10
}

/// The index of the first newline byte in `s`, or -1 if there is none.
pub open spec fn first_nl(s: Seq<u8>) -> int
    decreases s.len(),
{
    if s.len() == 0 {
        -1
    } else if s[0] == 10 {
        0
    } else {
        let r = first_nl(s.drop_first());
        if r < 0 {
            -1
        } else {
            r + 1
        }
    }
}

/// The lines of `s`: each piece runs up to and including a newline, and a
/// final piece without one is kept. The empty stream has no lines.
pub open spec fn line_split(s: Seq<u8>) -> Seq<Seq<u8>>
    decreases s.len(),
{
    if s.len() == 0 {
        seq![]
    } else {
        let i = first_nl(s);
        if 0 <= i && i < s.len() {
            seq![s.take(i + 1)] + line_split(s.skip(i + 1))
        } else {
            seq![s]
        }
    }
}

/// `s` without its leading whitespace.
pub open spec fn trim_start(s: Seq<u8>) -> Seq<u8>
    decreases s.len(),
{
    if s.len() > 0 && is_space(s[0]) {
        trim_start(s.drop_first())
    } else {
        s
    }
}

/// `s` without its trailing whitespace.
pub open spec fn trim_end(s: Seq<u8>) -> Seq<u8>
    decreases s.len(),
{
    if s.len() > 0 && is_space(s[s.len() - 1]) {
        trim_end(s.drop_last())
    } else {
        s
    }
}

/// `s` without its leading and trailing whitespace.
pub open spec fn trim(s: Seq<u8>) -> Seq<u8> {
    trim_end(trim_start(s))
}

/// Every line of `ls`, trimmed.
pub open spec fn trimmed_all(ls: Seq<Seq<u8>>) -> Seq<Seq<u8>> {
    ls.map_values(|l: Seq<u8>| trim(l))
}

/// The lines of the stream `s`, trimmed.
pub open spec fn trimmed_lines(s: Seq<u8>) -> Seq<Seq<u8>> {
    trimmed_all(line_split(s))
}

/// The line-synchronous walk over two line sequences, starting at the
/// 1-based line number `line`: `Ok` when both end together with every pair
/// of trimmed lines equal, otherwise `Err` with the first bad line number.
pub open spec fn check_lines(ans: Seq<Seq<u8>>, out: Seq<Seq<u8>>, line: int) -> Result<(), int>
    decreases ans.len() + out.len(),
{
    if ans.len() == 0 && out.len() == 0 {
        Ok(())
    } else if ans.len() == 0 || out.len() == 0 {
        Err(line)
    } else if trim(ans[0]) != trim(out[0]) {
        Err(line)
    } else {
        check_lines(ans.drop_first(), out.drop_first(), line + 1)
    }
}

/// What the checker decides for answer stream `ans` and output stream
/// `out`: `Ok`, or the 1-based number of the first mismatching line.
pub open spec fn check_result(ans: Seq<u8>, out: Seq<u8>) -> Result<(), int> {
    check_lines(line_split(ans), line_split(out), 1)
}

/// The diagnostic carried by a `WrongAnswer` verdict for line `line`.
pub open spec fn wa_msg(line: int) -> Seq<char> {
    "Wrong answer in line "@ + dec_digits(line as nat)
}

proof fn lemma_check_lines_reflexive(ls: Seq<Seq<u8>>, line: int)
    ensures
        check_lines(ls, ls, line) is Ok,
    decreases ls.len(),
{
    if ls.len() > 0 {
        lemma_check_lines_reflexive(ls.drop_first(), line + 1);
    }
}

/// Law: a stream checked against itself is accepted, whatever it holds.
pub proof fn lemma_check_reflexive(f: Seq<u8>)
    ensures
        check_result(f, f) is Ok,
{
    lemma_check_lines_reflexive(line_split(f), 1);
}

proof fn lemma_check_lines_symmetric(a: Seq<Seq<u8>>, b: Seq<Seq<u8>>, line: int)
    ensures
        check_lines(a, b, line) == check_lines(b, a, line),
    decreases a.len() + b.len(),
{
    if a.len() > 0 && b.len() > 0 && trim(a[0]) == trim(b[0]) {
        lemma_check_lines_symmetric(a.drop_first(), b.drop_first(), line + 1);
    }
}

/// Law: the checker is symmetric — swapping answer and output changes
/// nothing, neither the decision nor the reported line number.
pub proof fn lemma_check_symmetric(a: Seq<u8>, b: Seq<u8>)
    ensures
        check_result(a, b) == check_result(b, a),
{
    lemma_check_lines_symmetric(line_split(a), line_split(b), 1);
}

proof fn lemma_check_lines_ok_iff(a: Seq<Seq<u8>>, b: Seq<Seq<u8>>, line: int)
    ensures
        check_lines(a, b, line) is Ok <==> trimmed_all(a) == trimmed_all(b),
    decreases a.len() + b.len(),
{
    if a.len() == 0 && b.len() == 0 {
        assert(trimmed_all(a) =~= trimmed_all(b));
    } else if a.len() == 0 || b.len() == 0 {
        assert(trimmed_all(a).len() != trimmed_all(b).len());
    } else if trim(a[0]) != trim(b[0]) {
        assert(trimmed_all(a)[0] != trimmed_all(b)[0]);
    } else {
        lemma_check_lines_ok_iff(a.drop_first(), b.drop_first(), line + 1);
        assert(trimmed_all(a.drop_first()) =~= trimmed_all(a).drop_first());
        assert(trimmed_all(b.drop_first()) =~= trimmed_all(b).drop_first());
        if trimmed_all(a.drop_first()) == trimmed_all(b.drop_first()) {
            assert forall|i: int| 0 <= i < trimmed_all(a).len() implies trimmed_all(a)[i]
                == trimmed_all(b)[i] by {
                if i > 0 {
                    assert(trimmed_all(a).drop_first()[i - 1] == trimmed_all(b).drop_first()[i
                        - 1]);
                }
            }
            assert(trimmed_all(a) =~= trimmed_all(b));
        }
        if trimmed_all(a) == trimmed_all(b) {
            assert(trimmed_all(a).drop_first() =~= trimmed_all(b).drop_first());
        }
    }
}

/// Law: the checker accepts exactly when the two streams have the same
/// lines up to leading and trailing whitespace. In particular, output that
/// differs from the reference only in trailing whitespace per line passes.
pub proof fn lemma_check_ok_iff_trimmed_equal(ans: Seq<u8>, out: Seq<u8>)
    ensures
        check_result(ans, out) is Ok <==> trimmed_lines(ans) == trimmed_lines(out),
{
    lemma_check_lines_ok_iff(line_split(ans), line_split(out), 1);
}

/// Law: output with a different number of lines than the reference — for
/// instance the reference followed by one extra line — is rejected.
pub proof fn lemma_line_count_mismatch_rejected(ans: Seq<u8>, out: Seq<u8>)
    requires
        line_split(ans).len() != line_split(out).len(),
    ensures
        check_result(ans, out) is Err,
{
    lemma_check_lines_ok_iff(line_split(ans), line_split(out), 1);
    assert(trimmed_lines(ans).len() != trimmed_lines(out).len());
}

/// The views of a sequence of byte vectors.
pub open spec fn views(vs: Seq<Vec<u8>>) -> Seq<Seq<u8>> {
    vs.map_values(|v: Vec<u8>| v@)
}

/// Whether `b` is ASCII whitespace as the checker strips it.
pub fn is_space_byte(b: u8) -> (r: bool)
    ensures
        r == is_space(b),
{
    b == 32 || b == 9 || b == 13 || b == 10
}

/// A copy of the bytes of `s` from `a` (inclusive) to `b` (exclusive).
pub fn copy_range(s: &Vec<u8>, a: usize, b: usize) -> (r: Vec<u8>)
    requires
        a <= b <= s.len(),
    ensures
        r@ == s@.subrange(a as int, b as int),
{
    let mut r: Vec<u8> = Vec::new();
    let mut i: usize = a;
    proof {
        assert(r@ =~= s@.subrange(a as int, a as int));
    }
    while i < b
        invariant
            a <= i <= b <= s.len(),
            r@ == s@.subrange(a as int, i as int),
        decreases b - i,
    {
        r.push(s[i]);
        i = i + 1;
        proof {
            assert(r@ =~= s@.subrange(a as int, i as int));
        }
    }
    r
}

/// Whether two byte vectors hold the same bytes.
pub fn bytes_eq(x: &Vec<u8>, y: &Vec<u8>) -> (r: bool)
    ensures
        r <==> x@ == y@,
{
    if x.len() != y.len() {
        return false;
    }
    let mut i: usize = 0;
    while i < x.len()
        invariant
            i <= x.len(),
            x@.len() == y@.len(),
            forall|j: int| 0 <= j < i ==> x@[j] == y@[j],
        decreases x.len() - i,
    {
        if x[i] != y[i] {
            return false;
        }
        i = i + 1;
    }
    proof {
        assert(x@ =~= y@);
    }
    true
}

proof fn lemma_first_nl_found(t: Seq<u8>, k: int)
    requires
        0 <= k < t.len(),
        t[k] == 10,
        forall|j: int| 0 <= j < k ==> t[j] != 10,
    ensures
        first_nl(t) == k,
    decreases k,
{
    if k > 0 {
        lemma_first_nl_found(t.drop_first(), k - 1);
    }
}

proof fn lemma_first_nl_none(t: Seq<u8>)
    requires
        forall|j: int| 0 <= j < t.len() ==> t[j] != 10,
    ensures
        first_nl(t) == -1,
    decreases t.len(),
{
    if t.len() > 0 {
        lemma_first_nl_none(t.drop_first());
    }
}

/// Splits a byte stream into its lines, newline terminators kept.
pub fn split_lines(s: &Vec<u8>) -> (r: Vec<Vec<u8>>)
    ensures
        views(r@) == line_split(s@),
{
    let n = s.len();
    let mut r: Vec<Vec<u8>> = Vec::new();
    let mut start: usize = 0;
    proof {
        assert(views(r@) =~= Seq::<Seq<u8>>::empty());
        assert(s@.skip(0) =~= s@);
        assert(line_split(s@) =~= views(r@) + line_split(s@.skip(0)));
    }
    while start < n
        invariant
            start <= n,
            n == s@.len(),
            line_split(s@) == views(r@) + line_split(s@.skip(start as int)),
        decreases n - start,
    {
        let ghost rest = s@.skip(start as int);
        let ghost prev = r@;
        let mut j: usize = start;
        while j < n && s[j] != 10
            invariant
                start <= j <= n,
                n == s@.len(),
                forall|k: int| start <= k < j ==> s@[k] != 10,
            decreases n - j,
        {
            j = j + 1;
        }
        if j < n {
            proof {
                assert(rest[j - start as int] == 10);
                assert(forall|k: int| 0 <= k < j - start as int ==> rest[k] != 10);
                lemma_first_nl_found(rest, j - start as int);
                assert(rest.take(j - start as int + 1) =~= s@.subrange(
                    start as int,
                    j as int + 1,
                ));
                assert(rest.skip(j - start as int + 1) =~= s@.skip(j as int + 1));
            }
            let line = copy_range(s, start, j + 1);
            r.push(line);
            start = j + 1;
            proof {
                assert(views(r@) =~= views(prev).push(line@));
                assert(views(prev).push(line@) + line_split(s@.skip(start as int)) =~= views(prev)
                    + (seq![line@] + line_split(s@.skip(start as int))));
            }
        } else {
            proof {
                assert(forall|k: int| 0 <= k < rest.len() ==> rest[k] != 10);
                lemma_first_nl_none(rest);
            }
            let line = copy_range(s, start, n);
            r.push(line);
            start = n;
            proof {
                assert(line@ =~= rest);
                assert(views(r@) =~= views(prev).push(line@));
                assert(s@.skip(n as int) =~= Seq::<u8>::empty());
                assert(views(prev).push(line@) + line_split(s@.skip(n as int)) =~= views(prev)
                    + seq![rest]);
            }
        }
    }
    proof {
        assert(s@.skip(n as int) =~= Seq::<u8>::empty());
        assert(views(r@) + line_split(s@.skip(n as int)) =~= views(r@));
    }
    r
}

/// A copy of `l` with leading and trailing ASCII whitespace removed.
pub fn trim_bytes(l: &Vec<u8>) -> (r: Vec<u8>)
    ensures
        r@ == trim(l@),
{
    let n = l.len();
    let mut lo: usize = 0;
    proof {
        assert(l@.skip(0) =~= l@);
    }
    while lo < n && is_space_byte(l[lo])
        invariant
            lo <= n,
            n == l@.len(),
            trim_start(l@) == trim_start(l@.skip(lo as int)),
        decreases n - lo,
    {
        proof {
            assert(l@.skip(lo as int).drop_first() =~= l@.skip(lo as int + 1));
        }
        lo = lo + 1;
    }
    proof {
        if lo == n {
            assert(l@.skip(lo as int) =~= Seq::<u8>::empty());
        }
        assert(trim_start(l@) == l@.skip(lo as int));
    }
    let mut hi: usize = n;
    while hi > lo && is_space_byte(l[hi - 1])
        invariant
            lo <= hi <= n,
            n == l@.len(),
            trim_end(l@.skip(lo as int)) == trim_end(l@.subrange(lo as int, hi as int)),
        decreases hi,
    {
        proof {
            assert(l@.subrange(lo as int, hi as int).drop_last() =~= l@.subrange(
                lo as int,
                hi as int - 1,
            ));
        }
        hi = hi - 1;
    }
    proof {
        if hi == lo {
            assert(l@.subrange(lo as int, hi as int) =~= Seq::<u8>::empty());
        }
        assert(trim_end(l@.subrange(lo as int, hi as int)) == l@.subrange(lo as int, hi as int));
        assert(trim(l@) == l@.subrange(lo as int, hi as int));
    }
    copy_range(l, lo, hi)
}

/// The `WrongAnswer` diagnostic for line number `line`.
pub fn wa_message(line: u64) -> (r: String)
    ensures
        r@ == wa_msg(line as int),
{
    let mut s = String::from_str("Wrong answer in line ");
    append_dec(&mut s, line);
    s
}

/// One way of deciding whether a child's output answers a test case.
///
/// `spec_check` is the mathematical decision; `check` computes it, and on
/// rejection returns a diagnostic whose text the spec pins down.
pub trait Checker: Sized {
    spec fn spec_check(&self, output: Seq<u8>) -> Result<(), Seq<char>>;

    fn check(&self, output: &Vec<u8>) -> (r: Result<(), String>)
        ensures
            r is Ok <==> self.spec_check(output@) is Ok,
            r matches Err(m) ==> (self.spec_check(output@) matches Err(sm) && m@ == sm),
    ;
}

/// The line-oriented checker: holds the reference answer and compares a
/// child's output against it line by line, whitespace-insensitively.
pub struct LinesChecker {
    pub answer: Vec<u8>,
}

impl LinesChecker {
    /// A checker for the given reference answer.
    pub fn new(answer: Vec<u8>) -> (r: Self)
        ensures
            r.answer == answer,
    {
        LinesChecker { answer }
    }
}

impl Checker for LinesChecker {
    open spec fn spec_check(&self, output: Seq<u8>) -> Result<(), Seq<char>> {
        match check_result(self.answer@, output) {
            Ok(u) => Ok(u),
            Err(line) => Err(wa_msg(line)),
        }
    }

    fn check(&self, output: &Vec<u8>) -> (r: Result<(), String>) {
        let ans_lines = split_lines(&self.answer);
        let out_lines = split_lines(output);
        let ghost ansl = views(ans_lines@);
        let ghost outl = views(out_lines@);
        let mut i: usize = 0;
        proof {
            assert(ansl.skip(0) =~= ansl);
            assert(outl.skip(0) =~= outl);
        }
        while i < ans_lines.len() || i < out_lines.len()
            invariant
                i <= ans_lines.len(),
                i <= out_lines.len(),
                ansl == views(ans_lines@),
                outl == views(out_lines@),
                ansl.len() == ans_lines@.len(),
                outl.len() == out_lines@.len(),
                check_lines(ansl, outl, 1) == check_lines(
                    ansl.skip(i as int),
                    outl.skip(i as int),
                    i as int + 1,
                ),
                self.spec_check(output@) is Ok <==> check_lines(ansl, outl, 1) is Ok,
                self.spec_check(output@) matches Err(m) ==> (check_lines(ansl, outl, 1) matches
                    Err(line) && m == wa_msg(line)),
            decreases ans_lines@.len() + out_lines@.len() - 2 * i,
        {
            if i >= ans_lines.len() || i >= out_lines.len() {
                proof {
                    assert(check_lines(ansl.skip(i as int), outl.skip(i as int), i as int + 1)
                        == Err::<(), int>(i as int + 1));
                }
                return Err(wa_message((i + 1) as u64));
            }
            let ta = trim_bytes(&ans_lines[i]);
            let tb = trim_bytes(&out_lines[i]);
            proof {
                assert(ansl.skip(i as int)[0] == ansl[i as int]);
                assert(outl.skip(i as int)[0] == outl[i as int]);
                assert(ansl[i as int] == ans_lines@[i as int]@);
                assert(outl[i as int] == out_lines@[i as int]@);
            }
            if !bytes_eq(&ta, &tb) {
                proof {
                    assert(check_lines(ansl.skip(i as int), outl.skip(i as int), i as int + 1)
                        == Err::<(), int>(i as int + 1));
                }
                return Err(wa_message((i + 1) as u64));
            }
            proof {
                assert(ansl.skip(i as int).drop_first() =~= ansl.skip(i as int + 1));
                assert(outl.skip(i as int).drop_first() =~= outl.skip(i as int + 1));
            }
            i = i + 1;
        }
        proof {
            assert(ansl.skip(i as int) =~= Seq::<Seq<u8>>::empty());
            assert(outl.skip(i as int) =~= Seq::<Seq<u8>>::empty());
        }
        Ok(())
    }
}

} // verus!
