//! The batch driver: folding per-case verdicts into one result.
//!
//! Test cases are the files `<decimal>.in` of a directory, judged in
//! ascending numeric order. Across accepted cases the maxima of time and
//! memory are tracked; the first non-accepted verdict stops the batch and
//! is returned with its case number. When every case is accepted the
//! result is `Accepted` with the maxima and the sentinel case number 0.

use vstd::prelude::*;
use vstd::seq_lib::group_to_multiset_ensures;

use crate::checker::{copy_range, views};
use crate::probes::{all_digits, dec_val, parse_u64};
use crate::process::max64;
use crate::verdict::ProblemVerdict;

verus! {

/// The time an accepted verdict carries (zero for any other verdict).
pub open spec fn accepted_time(v: ProblemVerdict) -> u64 {
    match v {
        ProblemVerdict::Accepted { time, memory } => time,
        _ => 0,
    }
}

/// The memory an accepted verdict carries (zero for any other verdict).
pub open spec fn accepted_memory(v: ProblemVerdict) -> u64 {
    match v {
        ProblemVerdict::Accepted { time, memory } => memory,
        _ => 0,
    }
}

/// Whether every case of the batch was accepted.
pub open spec fn all_accepted(rs: Seq<(u32, ProblemVerdict)>) -> bool {
    forall|i: int| 0 <= i < rs.len() ==> rs[i].1 is Accepted
}

/// The batch fold, carrying the maxima seen so far: accepted cases raise
/// the maxima; the first non-accepted verdict is returned with its case
/// number; an exhausted batch is `Accepted` with the maxima and case 0.
pub open spec fn batch_from(rs: Seq<(u32, ProblemVerdict)>, max_t: u64, max_m: u64) -> (
    ProblemVerdict,
    u32,
)
    decreases rs.len(),
{
    if rs.len() == 0 {
        (ProblemVerdict::Accepted { time: max_t, memory: max_m }, 0u32)
    } else {
        match rs[0].1 {
            ProblemVerdict::Accepted { time, memory } => batch_from(
                rs.drop_first(),
                max64(max_t, time),
                max64(max_m, memory),
            ),
            v => (v, rs[0].0),
        }
    }
}

/// What a batch of judged cases, in order, amounts to.
pub open spec fn spec_batch(rs: Seq<(u32, ProblemVerdict)>) -> (ProblemVerdict, u32) {
    batch_from(rs, 0, 0)
}

/// The maximum of `acc` and the times of the accepted cases.
pub open spec fn fold_max_time(rs: Seq<(u32, ProblemVerdict)>, acc: u64) -> u64
    decreases rs.len(),
{
    if rs.len() == 0 {
        acc
    } else {
        fold_max_time(
            rs.drop_first(),
            if rs[0].1 is Accepted {
                max64(acc, accepted_time(rs[0].1))
            } else {
                acc
            },
        )
    }
}

/// The maximum of `acc` and the memories of the accepted cases.
pub open spec fn fold_max_memory(rs: Seq<(u32, ProblemVerdict)>, acc: u64) -> u64
    decreases rs.len(),
{
    if rs.len() == 0 {
        acc
    } else {
        fold_max_memory(
            rs.drop_first(),
            if rs[0].1 is Accepted {
                max64(acc, accepted_memory(rs[0].1))
            } else {
                acc
            },
        )
    }
}

/// The index of the first non-accepted case, or -1 if every case passed.
pub open spec fn first_rejected_idx(rs: Seq<(u32, ProblemVerdict)>) -> int
    decreases rs.len(),
{
    if rs.len() == 0 {
        -1
    } else if !(rs[0].1 is Accepted) {
        0
    } else {
        let r = first_rejected_idx(rs.drop_first());
        if r < 0 {
            -1
        } else {
            r + 1
        }
    }
}

proof fn lemma_batch_from_all_accepted(rs: Seq<(u32, ProblemVerdict)>, max_t: u64, max_m: u64)
    requires
        all_accepted(rs),
    ensures
        batch_from(rs, max_t, max_m) == (
            ProblemVerdict::Accepted {
                time: fold_max_time(rs, max_t),
                memory: fold_max_memory(rs, max_m),
            },
            0u32,
        ),
    decreases rs.len(),
{
    if rs.len() > 0 {
        assert(all_accepted(rs.drop_first()));
        lemma_batch_from_all_accepted(
            rs.drop_first(),
            max64(max_t, accepted_time(rs[0].1)),
            max64(max_m, accepted_memory(rs[0].1)),
        );
    }
}

proof fn lemma_fold_max_facts(rs: Seq<(u32, ProblemVerdict)>, acc_t: u64, acc_m: u64)
    ensures
        fold_max_time(rs, acc_t) >= acc_t,
        fold_max_memory(rs, acc_m) >= acc_m,
        forall|i: int|
            0 <= i < rs.len() && rs[i].1 is Accepted ==> fold_max_time(rs, acc_t)
                >= accepted_time(rs[i].1),
        forall|i: int|
            0 <= i < rs.len() && rs[i].1 is Accepted ==> fold_max_memory(rs, acc_m)
                >= accepted_memory(rs[i].1),
        fold_max_time(rs, acc_t) == acc_t || exists|i: int|
            0 <= i < rs.len() && rs[i].1 is Accepted && fold_max_time(rs, acc_t) == accepted_time(
                rs[i].1,
            ),
        fold_max_memory(rs, acc_m) == acc_m || exists|i: int|
            0 <= i < rs.len() && rs[i].1 is Accepted && fold_max_memory(rs, acc_m)
                == accepted_memory(rs[i].1),
    decreases rs.len(),
{
    if rs.len() > 0 {
        let next_t = if rs[0].1 is Accepted {
            max64(acc_t, accepted_time(rs[0].1))
        } else {
            acc_t
        };
        let next_m = if rs[0].1 is Accepted {
            max64(acc_m, accepted_memory(rs[0].1))
        } else {
            acc_m
        };
        lemma_fold_max_facts(rs.drop_first(), next_t, next_m);
        assert(forall|i: int| 1 <= i < rs.len() ==> rs[i] == rs.drop_first()[i - 1]);
        if fold_max_time(rs, acc_t) != acc_t {
            if fold_max_time(rs.drop_first(), next_t) == next_t {
                assert(rs[0].1 is Accepted && fold_max_time(rs, acc_t) == accepted_time(rs[0].1));
            } else {
                let i = choose|i: int|
                    0 <= i < rs.drop_first().len() && rs.drop_first()[i].1 is Accepted
                        && fold_max_time(rs.drop_first(), next_t) == accepted_time(
                        rs.drop_first()[i].1,
                    );
                assert(rs[i + 1].1 is Accepted && fold_max_time(rs, acc_t) == accepted_time(
                    rs[i + 1].1,
                ));
            }
        }
        if fold_max_memory(rs, acc_m) != acc_m {
            if fold_max_memory(rs.drop_first(), next_m) == next_m {
                assert(rs[0].1 is Accepted && fold_max_memory(rs, acc_m) == accepted_memory(
                    rs[0].1,
                ));
            } else {
                let i = choose|i: int|
                    0 <= i < rs.drop_first().len() && rs.drop_first()[i].1 is Accepted
                        && fold_max_memory(rs.drop_first(), next_m) == accepted_memory(
                        rs.drop_first()[i].1,
                    );
                assert(rs[i + 1].1 is Accepted && fold_max_memory(rs, acc_m) == accepted_memory(
                    rs[i + 1].1,
                ));
            }
        }
    }
}

/// Law: when every case of a batch is accepted, the batch result is
/// `Accepted` with the maxima of the per-case times and memories, and the
/// failing case number is the zero sentinel.
pub proof fn lemma_batch_all_accepted(rs: Seq<(u32, ProblemVerdict)>)
    requires
        all_accepted(rs),
    ensures
        spec_batch(rs).1 == 0,
        spec_batch(rs).0 == (ProblemVerdict::Accepted {
            time: fold_max_time(rs, 0),
            memory: fold_max_memory(rs, 0),
        }),
        forall|i: int|
            0 <= i < rs.len() ==> fold_max_time(rs, 0) >= accepted_time(rs[i].1) && fold_max_memory(
                rs,
                0,
            ) >= accepted_memory(rs[i].1),
        fold_max_time(rs, 0) == 0 || exists|i: int|
            0 <= i < rs.len() && fold_max_time(rs, 0) == accepted_time(rs[i].1),
        fold_max_memory(rs, 0) == 0 || exists|i: int|
            0 <= i < rs.len() && fold_max_memory(rs, 0) == accepted_memory(rs[i].1),
{
    lemma_batch_from_all_accepted(rs, 0, 0);
    lemma_fold_max_facts(rs, 0, 0);
}

proof fn lemma_batch_from_first_rejection(rs: Seq<(u32, ProblemVerdict)>, max_t: u64, max_m: u64)
    requires
        !all_accepted(rs),
    ensures
        ({
            let k = first_rejected_idx(rs);
            &&& 0 <= k < rs.len()
            &&& !(rs[k].1 is Accepted)
            &&& forall|j: int| 0 <= j < k ==> rs[j].1 is Accepted
            &&& batch_from(rs, max_t, max_m) == (rs[k].1, rs[k].0)
        }),
    decreases rs.len(),
{
    if !(rs[0].1 is Accepted) {
    } else {
        let w = choose|i: int| 0 <= i < rs.len() && !(rs[i].1 is Accepted);
        assert(rs.drop_first()[w - 1] == rs[w]);
        assert(!all_accepted(rs.drop_first()));
        lemma_batch_from_first_rejection(
            rs.drop_first(),
            max64(max_t, accepted_time(rs[0].1)),
            max64(max_m, accepted_memory(rs[0].1)),
        );
        assert(forall|i: int| 1 <= i < rs.len() ==> rs[i] == rs.drop_first()[i - 1]);
    }
}

/// Law: when some case of a batch is not accepted, the batch result is the
/// verdict and case number of the first such case.
pub proof fn lemma_batch_first_rejection(rs: Seq<(u32, ProblemVerdict)>)
    requires
        !all_accepted(rs),
    ensures
        ({
            let k = first_rejected_idx(rs);
            &&& 0 <= k < rs.len()
            &&& !(rs[k].1 is Accepted)
            &&& forall|j: int| 0 <= j < k ==> rs[j].1 is Accepted
            &&& spec_batch(rs) == (rs[k].1, rs[k].0)
        }),
{
    lemma_batch_from_first_rejection(rs, 0, 0);
}

proof fn lemma_fold_max_snoc(rs: Seq<(u32, ProblemVerdict)>, x: (u32, ProblemVerdict), acc_t: u64, acc_m: u64)
    ensures
        fold_max_time(rs.push(x), acc_t) == (if x.1 is Accepted {
            max64(fold_max_time(rs, acc_t), accepted_time(x.1))
        } else {
            fold_max_time(rs, acc_t)
        }),
        fold_max_memory(rs.push(x), acc_m) == (if x.1 is Accepted {
            max64(fold_max_memory(rs, acc_m), accepted_memory(x.1))
        } else {
            fold_max_memory(rs, acc_m)
        }),
    decreases rs.len(),
{
    if rs.len() == 0 {
        let e = Seq::<(u32, ProblemVerdict)>::empty();
        assert(rs.push(x)[0] == x);
        assert(rs.push(x).drop_first() =~= e);
        assert(fold_max_time(e, max64(acc_t, accepted_time(x.1))) == max64(
            acc_t,
            accepted_time(x.1),
        ));
        assert(fold_max_memory(e, max64(acc_m, accepted_memory(x.1))) == max64(
            acc_m,
            accepted_memory(x.1),
        ));
        assert(fold_max_time(e, acc_t) == acc_t);
        assert(fold_max_memory(e, acc_m) == acc_m);
    } else {
        assert(rs.push(x)[0] == rs[0]);
        assert(rs.push(x).drop_first() =~= rs.drop_first().push(x));
        let next_t = if rs[0].1 is Accepted {
            max64(acc_t, accepted_time(rs[0].1))
        } else {
            acc_t
        };
        let next_m = if rs[0].1 is Accepted {
            max64(acc_m, accepted_memory(rs[0].1))
        } else {
            acc_m
        };
        lemma_fold_max_snoc(rs.drop_first(), x, next_t, next_m);
    }
}

proof fn lemma_batch_snoc_rejected(rs: Seq<(u32, ProblemVerdict)>, x: (u32, ProblemVerdict), max_t: u64, max_m: u64)
    requires
        all_accepted(rs),
        !(x.1 is Accepted),
    ensures
        batch_from(rs.push(x), max_t, max_m) == (x.1, x.0),
    decreases rs.len(),
{
    if rs.len() == 0 {
        assert(rs.push(x)[0] == x);
    } else {
        assert(rs.push(x)[0] == rs[0]);
        assert(rs.push(x).drop_first() =~= rs.drop_first().push(x));
        assert(all_accepted(rs.drop_first()));
        lemma_batch_snoc_rejected(
            rs.drop_first(),
            x,
            max64(max_t, accepted_time(rs[0].1)),
            max64(max_m, accepted_memory(rs[0].1)),
        );
    }
}

/// A batch in progress: the maxima over the accepted cases so far, the
/// outcome once a case was rejected, and (for the specification) the
/// verdicts recorded so far.
pub struct BatchRun {
    pub max_time: u64,
    pub max_memory: u64,
    pub outcome: Option<(ProblemVerdict, u32)>,
    pub history: Ghost<Seq<(u32, ProblemVerdict)>>,
}

impl BatchRun {
    /// The batch invariant: while no case was rejected, every recorded
    /// case was accepted and the maxima are the folds over the history;
    /// once one was, the outcome is what the whole history folds to.
    pub open spec fn inv(self) -> bool {
        match self.outcome {
            None => all_accepted(self.history@) && self.max_time == fold_max_time(self.history@, 0)
                && self.max_memory == fold_max_memory(self.history@, 0),
            Some(o) => spec_batch(self.history@) == o,
        }
    }

    /// An empty batch.
    pub fn new() -> (r: Self)
        ensures
            r.inv(),
            r.outcome is None,
            r.max_time == 0,
            r.max_memory == 0,
            r.history@ == Seq::<(u32, ProblemVerdict)>::empty(),
    {
        BatchRun {
            max_time: 0,
            max_memory: 0,
            outcome: None,
            history: Ghost(Seq::empty()),
        }
    }

    /// Records the verdict of the next case. Answers whether the batch is
    /// over: an accepted verdict raises the maxima and the batch goes on;
    /// any other verdict becomes the outcome, with its case number.
    pub fn record(&mut self, case: u32, v: ProblemVerdict) -> (done: bool)
        requires
            old(self).inv(),
            old(self).outcome is None,
        ensures
            final(self).inv(),
            final(self).history@ == old(self).history@.push((case, v)),
            done <==> !(v is Accepted),
            done <==> final(self).outcome is Some,
    {
        let ghost h = self.history@;
        proof {
            self.history@ = h.push((case, v));
        }
        match &v {
            ProblemVerdict::Accepted { time, memory } => {
                let t = *time;
                let m = *memory;
                if t > self.max_time {
                    self.max_time = t;
                }
                if m > self.max_memory {
                    self.max_memory = m;
                }
                proof {
                    lemma_fold_max_snoc(h, (case, v), 0, 0);
                }
                false
            },
            _ => {
                self.outcome = Some((v, case));
                proof {
                    lemma_batch_snoc_rejected(h, (case, self.outcome->Some_0.0), 0, 0);
                }
                true
            },
        }
    }

    /// The batch result: what the recorded history folds to.
    pub fn finish(self) -> (r: (ProblemVerdict, u32))
        requires
            self.inv(),
        ensures
            r == spec_batch(self.history@),
    {
        match self.outcome {
            Some(o) => o,
            None => {
                proof {
                    lemma_batch_from_all_accepted(self.history@, 0, 0);
                }
                (ProblemVerdict::Accepted { time: self.max_time, memory: self.max_memory }, 0u32)
            },
        }
    }
}

/// The bytes of the test-input suffix `.in`.
pub open spec fn dot_in_tag() -> Seq<u8> {
    seq![46u8, 105u8, 110u8]
}

/// The case number a file name denotes: the decimal value of its stem,
/// when the name is `<decimal>.in` and the value fits in `u32`.
pub open spec fn spec_case_number(name: Seq<u8>) -> Option<u32> {
    if name.len() > 3 && name.skip(name.len() - 3) == dot_in_tag() && all_digits(
        name.take(name.len() - 3),
    ) && dec_val(name.take(name.len() - 3)) <= u32::MAX {
        Some(dec_val(name.take(name.len() - 3)) as u32)
    } else {
        None
    }
}

/// The case numbers of a list of file names, in the order given, names
/// that denote no case skipped.
pub open spec fn spec_case_numbers(names: Seq<Seq<u8>>) -> Seq<u32>
    decreases names.len(),
{
    if names.len() == 0 {
        seq![]
    } else {
        spec_case_numbers(names.drop_last()) + (match spec_case_number(names.last()) {
            Some(v) => seq![v],
            None => seq![],
        })
    }
}

/// Ascending order.
pub open spec fn sorted_u32(s: Seq<u32>) -> bool {
    forall|a: int, b: int| 0 <= a < b < s.len() ==> s[a] <= s[b]
}

/// Reads a file name as a test case number, if it is one.
pub fn case_number_of(name: &Vec<u8>) -> (r: Option<u32>)
    ensures
        r == spec_case_number(name@),
{
    let n = name.len();
    if n <= 3 {
        return None;
    }
    if !(name[n - 3] == 46 && name[n - 2] == 105 && name[n - 1] == 110) {
        proof {
            assert(name@.skip(n as int - 3) != dot_in_tag());
        }
        return None;
    }
    proof {
        assert(name@.skip(n as int - 3) =~= dot_in_tag());
    }
    let stem = copy_range(name, 0, n - 3);
    match parse_u64(&stem) {
        Some(v) => if v <= 0xffff_ffff {
            Some(v as u32)
        } else {
            None
        },
        None => None,
    }
}

fn min_index(v: &Vec<u32>) -> (m: usize)
    requires
        v@.len() > 0,
    ensures
        m < v@.len(),
        forall|j: int| 0 <= j < v@.len() ==> v@[m as int] <= v@[j],
{
    let mut m: usize = 0;
    let mut i: usize = 1;
    while i < v.len()
        invariant
            m < i <= v@.len(),
            forall|j: int| 0 <= j < i ==> v@[m as int] <= v@[j],
        decreases v@.len() - i,
    {
        if v[i] < v[m] {
            m = i;
        }
        i = i + 1;
    }
    m
}

/// Sorts case numbers ascending; the result holds the same numbers.
pub fn sort_u32_vec(v: Vec<u32>) -> (r: Vec<u32>)
    ensures
        sorted_u32(r@),
        r@.to_multiset() == v@.to_multiset(),
{
    let ghost orig = v@;
    let mut rem = v;
    let mut out: Vec<u32> = Vec::new();
    proof {
        broadcast use group_to_multiset_ensures;

        assert(out@.to_multiset().add(rem@.to_multiset()) =~= orig.to_multiset());
    }
    while rem.len() > 0
        invariant
            out@.to_multiset().add(rem@.to_multiset()) == orig.to_multiset(),
            sorted_u32(out@),
            forall|a: int, b: int|
                0 <= a < out@.len() && 0 <= b < rem@.len() ==> out@[a] <= rem@[b],
        decreases rem.len(),
    {
        let m = min_index(&rem);
        let ghost old_rem = rem@;
        let ghost old_out = out@;
        let x = rem.remove(m);
        out.push(x);
        proof {
            broadcast use group_to_multiset_ensures;

            assert(old_rem.contains(x));
            assert(out@.to_multiset() =~= old_out.to_multiset().insert(x));
            assert(rem@.to_multiset() =~= old_rem.to_multiset().remove(x));
            assert(out@.to_multiset().add(rem@.to_multiset()) =~= orig.to_multiset());
            assert(forall|b: int| 0 <= b < rem@.len() ==> old_rem.contains(rem@[b]));
            assert forall|a: int, b: int|
                0 <= a < out@.len() && 0 <= b < rem@.len() implies out@[a] <= rem@[b] by {
                let idx = choose|idx: int| 0 <= idx < old_rem.len() && old_rem[idx] == rem@[b];
                if a < old_out.len() {
                    assert(out@[a] == old_out[a]);
                }
            }
        }
    }
    proof {
        broadcast use group_to_multiset_ensures;

        assert(rem@ =~= Seq::<u32>::empty());
        assert(out@.to_multiset().add(rem@.to_multiset()) =~= out@.to_multiset());
    }
    out
}

/// The sorted case numbers of a directory listing: every name of the form
/// `<decimal>.in`, read as its number, ascending.
pub fn case_numbers(names: &Vec<Vec<u8>>) -> (r: Vec<u32>)
    ensures
        sorted_u32(r@),
        r@.to_multiset() == spec_case_numbers(views(names@)).to_multiset(),
{
    let mut nums: Vec<u32> = Vec::new();
    let mut i: usize = 0;
    proof {
        assert(views(names@).take(0) =~= Seq::<Seq<u8>>::empty());
    }
    while i < names.len()
        invariant
            i <= names@.len(),
            nums@ == spec_case_numbers(views(names@).take(i as int)),
        decreases names@.len() - i,
    {
        proof {
            assert(views(names@).take(i as int + 1).drop_last() =~= views(names@).take(i as int));
            assert(views(names@).take(i as int + 1).last() == names@[i as int]@);
        }
        let ghost prev = nums@;
        match case_number_of(&names[i]) {
            Some(v) => {
                nums.push(v);
                proof {
                    assert(nums@ =~= prev + seq![v]);
                }
            },
            None => {
                proof {
                    assert(nums@ =~= prev + Seq::<u32>::empty());
                }
            },
        }
        i = i + 1;
    }
    proof {
        assert(views(names@).take(names@.len() as int) =~= views(names@));
    }
    sort_u32_vec(nums)
}

} // verus!
