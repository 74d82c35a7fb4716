use vstd::prelude::*;

use crate::summary::{names_with, records, summarize, all_finished, lemma_counts_add_up, Outcome, RunSummary};

verus! {

/// How many slots of `s` hold an outcome.
pub open spec fn finished_count(s: Seq<Option<Outcome>>) -> nat
    decreases s.len(),
{
    if s.len() == 0 {
        0
    } else {
        finished_count(s.drop_last()) + if s.last() is Some {
            1nat
        } else {
            0nat
        }
    }
}

proof fn lemma_finished_count_bounds(s: Seq<Option<Outcome>>)
    ensures
        finished_count(s) <= s.len(),
        finished_count(s) == s.len() <==> forall|i: int| 0 <= i < s.len() ==> (#[trigger] s[i]) is Some,
    decreases s.len(),
{
    if s.len() > 0 {
        let init = s.drop_last();
        lemma_finished_count_bounds(init);
        if finished_count(s) == s.len() {
            assert forall|i: int| 0 <= i < s.len() implies (#[trigger] s[i]) is Some by {
                if i < init.len() {
                    assert(init[i] == s[i]);
                }
            }
        }
        if forall|i: int| 0 <= i < s.len() ==> (#[trigger] s[i]) is Some {
            assert forall|i: int| 0 <= i < init.len() implies (#[trigger] init[i]) is Some by {
                assert(init[i] == s[i]);
            }
            assert(s[s.len() - 1] is Some);
        }
    }
}

proof fn lemma_finished_count_fill(s: Seq<Option<Outcome>>, i: int, o: Outcome)
    requires
        0 <= i < s.len(),
        s[i] is None,
    ensures
        finished_count(s.update(i, Some(o))) == finished_count(s) + 1,
    decreases s.len(),
{
    let t = s.update(i, Some(o));
    if i == s.len() - 1 {
        assert(t.drop_last() =~= s.drop_last());
    } else {
        lemma_finished_count_fill(s.drop_last(), i, o);
        assert(t.drop_last() =~= s.drop_last().update(i, Some(o)));
    }
}

/// The running count of a fan-in: `completed` of the `total` targets have finished.
#[derive(Clone, Copy, Debug, PartialEq, Eq, Structural)]
pub struct Progress {
    pub completed: usize,
    pub total: usize,
}

/// Why a finished unit's outcome was not taken.
#[derive(Clone, Copy, Debug, PartialEq, Eq, Structural)]
pub enum RecordError {
    /// No target was dispatched under this index.
    UnknownTarget,
    /// The target under this index has already reported its outcome.
    AlreadyRecorded,
}

/// Collects the outcomes of the concurrently running units, one per dispatched
/// target, in whatever order they finish. Each unit reports under the index at
/// which its target was dispatched.
pub struct FanIn {
    targets: Vec<String>,
    outcomes: Vec<Option<Outcome>>,
    completed: usize,
}

impl FanIn {
    pub closed spec fn targets(&self) -> Seq<String> {
        self.targets@
    }

    pub closed spec fn outcomes(&self) -> Seq<Option<Outcome>> {
        self.outcomes@
    }

    pub closed spec fn completed_spec(&self) -> nat {
        self.completed as nat
    }

    pub closed spec fn wf(&self) -> bool {
        &&& self.outcomes@.len() == self.targets@.len()
        &&& self.completed == finished_count(self.outcomes@)
    }

    /// A fan-in over `targets`, none of which has finished yet.
    pub fn new(targets: Vec<String>) -> (r: FanIn)
        ensures
            r.wf(),
            r.targets() == targets@,
            r.outcomes() == Seq::new(targets@.len(), |i: int| None::<Outcome>),
            r.completed_spec() == 0,
    {
        let n = targets.len();
        let mut outcomes: Vec<Option<Outcome>> = Vec::new();
        let mut i: usize = 0;
        while i < n
            invariant
                i <= n,
                outcomes@ == Seq::new(i as nat, |k: int| None::<Outcome>),
                finished_count(outcomes@) == 0,
            decreases n - i,
        {
            proof {
                assert(outcomes@.push(None).drop_last() =~= outcomes@);
            }
            outcomes.push(None);
            assert(outcomes@ =~= Seq::new((i + 1) as nat, |k: int| None::<Outcome>));
            i += 1;
        }
        FanIn { targets, outcomes, completed: 0 }
    }

    /// The number of dispatched targets.
    pub fn total(&self) -> (r: usize)
        requires
            self.wf(),
        ensures
            r == self.targets().len(),
    {
        self.targets.len()
    }

    /// The number of targets that have reported an outcome.
    pub fn completed(&self) -> (r: usize)
        requires
            self.wf(),
        ensures
            r == self.completed_spec(),
            r == finished_count(self.outcomes()),
    {
        self.completed
    }

    /// Whether every dispatched target has reported.
    pub fn is_complete(&self) -> (r: bool)
        requires
            self.wf(),
        ensures
            r == all_finished(records(self.targets(), self.outcomes())),
            r == (self.completed_spec() == self.targets().len()),
    {
        proof {
            lemma_finished_count_bounds(self.outcomes@);
            let rs = records(self.targets@, self.outcomes@);
            if all_finished(rs) {
                assert forall|i: int| 0 <= i < self.outcomes@.len() implies (
                #[trigger] self.outcomes@[i]) is Some by {
                    assert(rs[i].1 is Some);
                }
            }
        }
        self.completed == self.targets.len()
    }

    /// Takes the outcome of the target dispatched under `index`. Each target
    /// reports once; the outcome of an unknown index or a second report for the
    /// same index is refused and leaves the fan-in as it was.
    pub fn record(&mut self, index: usize, outcome: Outcome) -> (r: Result<Progress, RecordError>)
        requires
            old(self).wf(),
        ensures
            final(self).wf(),
            final(self).targets() == old(self).targets(),
            index >= old(self).targets().len() ==> r == Err::<Progress, RecordError>(
                RecordError::UnknownTarget,
            ) && *final(self) == *old(self),
            index < old(self).targets().len() && old(self).outcomes()[index as int] is Some ==> r
                == Err::<Progress, RecordError>(RecordError::AlreadyRecorded) && *final(self)
                == *old(self),
            index < old(self).targets().len() && old(self).outcomes()[index as int] is None ==> {
                &&& final(self).outcomes() == old(self).outcomes().update(
                    index as int,
                    Some(outcome),
                )
                &&& final(self).completed_spec() == old(self).completed_spec() + 1
                &&& r == Ok::<Progress, RecordError>(
                    (Progress {
                        completed: final(self).completed_spec() as usize,
                        total: old(self).targets().len() as usize,
                    }),
                )
            },
    {
        if index >= self.outcomes.len() {
            return Err(RecordError::UnknownTarget);
        }
        if self.outcomes[index].is_some() {
            return Err(RecordError::AlreadyRecorded);
        }
        proof {
            lemma_finished_count_fill(self.outcomes@, index as int, outcome);
            lemma_finished_count_bounds(self.outcomes@.update(index as int, Some(outcome)));
        }
        self.outcomes.set(index, Some(outcome));
        self.completed = self.completed + 1;
        Ok(Progress { completed: self.completed, total: self.targets.len() })
    }

    /// The summary of what has finished so far: every finished target is in
    /// the succeeded or in the failed list, in dispatch order; one that has not
    /// reported (the run was cut short) is in neither.
    pub fn summary(&self) -> (r: RunSummary)
        requires
            self.wf(),
        ensures
            r.matches(records(self.targets(), self.outcomes())),
            self.completed_spec() == self.targets().len() ==> r.succeeded@.len()
                + r.failed@.len() == r.total,
    {
        let r = summarize(&self.targets, &self.outcomes);
        proof {
            let rs = records(self.targets@, self.outcomes@);
            lemma_finished_count_bounds(self.outcomes@);
            if self.completed == self.targets@.len() {
                assert forall|i: int| 0 <= i < rs.len() implies (#[trigger] rs[i]).1 is Some by {
                    assert(self.outcomes@[i] is Some);
                }
                lemma_counts_add_up(rs);
                assert(r.succeeded@.len() == names_with(rs, true).len());
                assert(r.failed@.len() == names_with(rs, false).len());
            }
        }
        r
    }
}

/// Outcomes recorded under two different indices land in the same state
/// whichever arrives first: the order in which units finish does not matter.
pub proof fn lemma_records_commute(s: Seq<Option<Outcome>>, i: int, a: Outcome, j: int, b: Outcome)
    requires
        0 <= i < s.len(),
        0 <= j < s.len(),
        i != j,
    ensures
        s.update(i, Some(a)).update(j, Some(b)) == s.update(j, Some(b)).update(i, Some(a)),
{
    assert(s.update(i, Some(a)).update(j, Some(b)) =~= s.update(j, Some(b)).update(i, Some(a)));
}

} // verus!
