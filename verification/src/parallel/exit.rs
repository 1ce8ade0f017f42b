//! What one finished job contributes to the exit code, and how the
//! contributions of all jobs combine.

use vstd::prelude::*;

verus! {

/// What one finished job contributes to the exit code: a number from 0 to
/// 255.
pub type ExitContribution = u8;

/// How a job ended.
#[derive(Clone, Copy, Debug, PartialEq, Eq, Structural)]
pub enum JobOutcome {
    /// The process exited on its own with this code.
    Exited(u8),
    /// The process was terminated by this signal.
    Signaled(u8),
    /// The status of the process could not be obtained.
    WaitFailed,
}

impl JobOutcome {
    /// A signal number occupies seven bits of a wait status, so a valid
    /// outcome never names a signal above 127.
    pub open spec fn wf(self) -> bool {
        self matches JobOutcome::Signaled(signal) ==> signal <= 127
    }

    /// The contribution of an outcome: the exit code itself, 128 plus the
    /// signal number, or 1 when the status is unknown.
    pub open spec fn spec_contribution(self) -> int {
        match self {
            JobOutcome::Exited(code) => code as int,
            JobOutcome::Signaled(signal) => 128 + signal,
            JobOutcome::WaitFailed => 1,
        }
    }

    /// The outcome that a pair of raw status fields stands for.
    ///
    /// `code` is the exit code where the process exited on its own and
    /// `signal` the terminating signal where it did not. A field outside the
    /// range that a wait status can hold, or the absence of both, counts as
    /// an unknown status.
    pub open spec fn spec_from_status(code: Option<i32>, signal: Option<i32>) -> JobOutcome {
        match code {
            Some(c) => if 0 <= c <= 255 {
                JobOutcome::Exited(c as u8)
            } else {
                JobOutcome::WaitFailed
            },
            None => match signal {
                Some(s) => if 0 <= s <= 127 {
                    JobOutcome::Signaled(s as u8)
                } else {
                    JobOutcome::WaitFailed
                },
                None => JobOutcome::WaitFailed,
            },
        }
    }

    /// The outcome that a pair of raw status fields stands for.
    pub fn from_status(code: Option<i32>, signal: Option<i32>) -> (outcome: JobOutcome)
        ensures
            outcome == Self::spec_from_status(code, signal),
            outcome.wf(),
    {
        match code {
            Some(c) => {
                if 0 <= c && c <= 255 {
                    JobOutcome::Exited(c as u8)
                } else {
                    JobOutcome::WaitFailed
                }
            },
            None => match signal {
                Some(s) => {
                    if 0 <= s && s <= 127 {
                        JobOutcome::Signaled(s as u8)
                    } else {
                        JobOutcome::WaitFailed
                    }
                },
                None => JobOutcome::WaitFailed,
            },
        }
    }

    /// What the outcome contributes to the exit code.
    pub fn contribution(self) -> (value: ExitContribution)
        requires
            self.wf(),
        ensures
            value == self.spec_contribution(),
    {
        match self {
            JobOutcome::Exited(code) => code,
            JobOutcome::Signaled(signal) => 128 + signal,
            JobOutcome::WaitFailed => 1,
        }
    }
}

/// The bitwise OR of a sequence of contributions; 0 for the empty sequence.
pub open spec fn combined(contributions: Seq<u8>) -> u8
    decreases contributions.len(),
{
    if contributions.len() == 0 {
        0
    } else {
        combined(contributions.drop_last()) | contributions.last()
    }
}

/// The running OR of the contributions recorded so far.
#[derive(Clone, Copy, Debug, PartialEq, Eq, Structural)]
pub struct ExitAggregate {
    code: u8,
}

impl ExitAggregate {
    /// The exit code that the recorded contributions add up to.
    pub closed spec fn value(self) -> u8 {
        self.code
    }

    /// The aggregate of no contributions: 0.
    pub fn new() -> (aggregate: ExitAggregate)
        ensures
            aggregate.value() == 0,
    {
        ExitAggregate { code: 0 }
    }

    /// Takes in the contribution of one more job.
    pub fn record(&mut self, contribution: ExitContribution)
        ensures
            final(self).value() == old(self).value() | contribution,
    {
        self.code = self.code | contribution;
    }

    /// The exit code that the recorded contributions add up to.
    pub fn code(&self) -> (code: u8)
        ensures
            code == self.value(),
    {
        self.code
    }
}

/// Folds every contribution into one exit code.
pub fn aggregate(contributions: &Vec<ExitContribution>) -> (code: u8)
    ensures
        code == combined(contributions@),
{
    let mut total = ExitAggregate::new();
    let mut i: usize = 0;
    while i < contributions.len()
        invariant
            i <= contributions.len(),
            total.value() == combined(contributions@.take(i as int)),
        decreases contributions.len() - i,
    {
        proof {
            assert(contributions@.take(i + 1).drop_last() =~= contributions@.take(i as int));
        }
        total.record(contributions[i]);
        i += 1;
    }
    proof {
        assert(contributions@.take(i as int) =~= contributions@);
    }
    total.code()
}

/// Appending a contribution ORs it into the aggregate.
pub proof fn lemma_combined_push(contributions: Seq<u8>, contribution: u8)
    ensures
        combined(contributions.push(contribution)) == combined(contributions) | contribution,
{
    assert(contributions.push(contribution).drop_last() =~= contributions);
}

/// The aggregate of two runs of jobs is the OR of their aggregates.
pub proof fn lemma_combined_concat(first: Seq<u8>, second: Seq<u8>)
    ensures
        combined(first + second) == combined(first) | combined(second),
    decreases second.len(),
{
    let x = combined(first);
    if second.len() == 0 {
        assert(first + second =~= first);
        assert(x | 0u8 == x) by (bit_vector);
    } else {
        let rest = second.drop_last();
        let last = second.last();
        lemma_combined_concat(first, rest);
        assert((first + second).drop_last() =~= first + rest);
        let y = combined(rest);
        assert((x | y) | last == x | (y | last)) by (bit_vector);
    }
}

/// Every contribution leaves its bits in the aggregate: the aggregate is 0
/// exactly when every job contributed 0.
pub proof fn lemma_combined_zero_iff_all_zero(contributions: Seq<u8>)
    ensures
        combined(contributions) == 0 <==> (forall|i: int|
            0 <= i < contributions.len() ==> contributions[i] == 0),
    decreases contributions.len(),
{
    if contributions.len() > 0 {
        let rest = contributions.drop_last();
        let last = contributions.last();
        lemma_combined_zero_iff_all_zero(rest);
        let x = combined(rest);
        assert((x | last == 0) <==> (x == 0 && last == 0)) by (bit_vector);
        if combined(contributions) == 0 {
            assert forall|i: int| 0 <= i < contributions.len() implies contributions[i] == 0 by {
                if i < rest.len() {
                    assert(contributions[i] == rest[i]);
                }
            }
        } else {
            if forall|i: int| 0 <= i < contributions.len() ==> contributions[i] == 0 {
                assert forall|i: int| 0 <= i < rest.len() implies rest[i] == 0 by {
                    assert(rest[i] == contributions[i]);
                }
            }
        }
    }
}

/// No contribution is lost: ORing any one of them into the aggregate again
/// changes nothing.
pub proof fn lemma_combined_absorbs(contributions: Seq<u8>, i: int)
    requires
        0 <= i < contributions.len(),
    ensures
        combined(contributions) | contributions[i] == combined(contributions),
    decreases contributions.len(),
{
    let rest = contributions.drop_last();
    let last = contributions.last();
    let x = combined(rest);
    if i == contributions.len() - 1 {
        assert((x | last) | last == x | last) by (bit_vector);
    } else {
        lemma_combined_absorbs(rest, i);
        let c = rest[i];
        assert(x | c == x ==> (x | last) | c == x | last) by (bit_vector);
    }
}

/// Taking one contribution out and ORing it back gives the same aggregate.
pub proof fn lemma_combined_remove(contributions: Seq<u8>, i: int)
    requires
        0 <= i < contributions.len(),
    ensures
        combined(contributions) == combined(contributions.remove(i)) | contributions[i],
{
    let before = contributions.take(i);
    let after = contributions.skip(i + 1);
    let one = seq![contributions[i]];
    assert(contributions =~= before + one + after);
    assert(contributions.remove(i) =~= before + after);
    lemma_combined_concat(before, one);
    lemma_combined_concat(before + one, after);
    lemma_combined_concat(before, after);
    assert(one.drop_last() =~= Seq::<u8>::empty());
    let a = combined(before);
    let b = combined(after);
    let c = contributions[i];
    assert(combined(one) == c) by {
        assert(combined(one.drop_last()) == 0);
        assert(one.last() == c);
        assert(0u8 | c == c) by (bit_vector);
    }
    assert((a | c) | b == (a | b) | c) by (bit_vector);
}

/// The aggregate does not depend on the order in which jobs are reaped: two
/// sequences that hold the same contributions, each as often as the other,
/// combine to the same exit code.
pub proof fn lemma_combined_order_independent(first: Seq<u8>, second: Seq<u8>)
    requires
        first.to_multiset() == second.to_multiset(),
    ensures
        combined(first) == combined(second),
    decreases first.len(),
{
    first.to_multiset_ensures();
    second.to_multiset_ensures();
    if first.len() == 0 {
        assert(second.len() == 0);
    } else {
        let last = first.last();
        let rest = first.drop_last();
        assert(first[first.len() - 1] == last);
        assert(first.contains(last));
        assert(first.to_multiset().count(last) > 0);
        assert(second.to_multiset().count(last) > 0);
        assert(second.contains(last));
        let j = choose|j: int| 0 <= j < second.len() && second[j] == last;
        assert(rest =~= first.remove(first.len() - 1));
        assert(rest.to_multiset() =~= second.remove(j).to_multiset());
        lemma_combined_order_independent(rest, second.remove(j));
        lemma_combined_remove(second, j);
    }
}

} // verus!
