use vstd::prelude::*;

verus! {

broadcast use vstd::seq_lib::group_to_multiset_ensures;

/// How one target's update attempt ended.
#[derive(Clone, Copy, Debug, PartialEq, Eq, Structural)]
pub enum Outcome {
    /// The update command ran and reported success.
    Succeeded,
    /// The update command ran and reported a non-zero status.
    Failed,
    /// The update mechanism itself could not be started.
    TransportError,
}

impl Outcome {
    pub open spec fn is_success(self) -> bool {
        self is Succeeded
    }

    /// The outcome of a command that ran to completion with the given status.
    pub fn from_status(success: bool) -> (r: Outcome)
        ensures
            r.is_success() == success,
            r != Outcome::TransportError,
    {
        if success {
            Outcome::Succeeded
        } else {
            Outcome::Failed
        }
    }

    pub fn succeeded(&self) -> (r: bool)
        ensures
            r == self.is_success(),
    {
        match self {
            Outcome::Succeeded => true,
            _ => false,
        }
    }
}

/// One target as the summary sees it: its name, and whether it succeeded once it
/// has finished (`None` while it has not).
pub type Record = (Seq<char>, Option<bool>);

pub open spec fn names(v: Seq<String>) -> Seq<Seq<char>> {
    v.map_values(|s: String| s@)
}

pub open spec fn verdict(o: Option<Outcome>) -> Option<bool> {
    match o {
        Some(x) => Some(x.is_success()),
        None => None,
    }
}

/// The records of the targets `targets`, whose outcomes so far are `outcomes`.
pub open spec fn records(targets: Seq<String>, outcomes: Seq<Option<Outcome>>) -> Seq<Record> {
    Seq::new(targets.len(), |i: int| (targets[i]@, verdict(outcomes[i])))
}

/// The names of the records, in order.
pub open spec fn record_names(rs: Seq<Record>) -> Seq<Seq<char>> {
    rs.map_values(|r: Record| r.0)
}

/// Every record has finished.
pub open spec fn all_finished(rs: Seq<Record>) -> bool {
    forall|i: int| 0 <= i < rs.len() ==> (#[trigger] rs[i]).1 is Some
}

/// The names of the records that finished with the verdict `ok`, in record order.
pub open spec fn names_with(rs: Seq<Record>, ok: bool) -> Seq<Seq<char>>
    decreases rs.len(),
{
    if rs.len() == 0 {
        Seq::empty()
    } else {
        let rest = names_with(rs.drop_last(), ok);
        if rs.last().1 == Some(ok) {
            rest.push(rs.last().0)
        } else {
            rest
        }
    }
}

/// The result of a run: how many targets it had, and which of them succeeded and
/// which failed, each list in the order in which the targets were given.
pub struct RunSummary {
    pub total: usize,
    pub succeeded: Vec<String>,
    pub failed: Vec<String>,
}

impl RunSummary {
    pub open spec fn matches(&self, rs: Seq<Record>) -> bool {
        &&& self.total == rs.len()
        &&& names(self.succeeded@) == names_with(rs, true)
        &&& names(self.failed@) == names_with(rs, false)
    }

    pub fn succeeded_count(&self) -> (r: usize)
        ensures
            r == self.succeeded@.len(),
    {
        self.succeeded.len()
    }

    pub fn failed_count(&self) -> (r: usize)
        ensures
            r == self.failed@.len(),
    {
        self.failed.len()
    }
}

/// Sorts the targets into those that succeeded and those that failed. A target
/// whose outcome is still missing (the run was cut short) is in neither list;
/// a transport error counts as a failure.
pub fn summarize(targets: &Vec<String>, outcomes: &Vec<Option<Outcome>>) -> (r: RunSummary)
    requires
        targets@.len() == outcomes@.len(),
    ensures
        r.matches(records(targets@, outcomes@)),
{
    let ghost rs = records(targets@, outcomes@);
    let mut succeeded: Vec<String> = Vec::new();
    let mut failed: Vec<String> = Vec::new();
    let n = targets.len();
    let mut i: usize = 0;
    while i < n
        invariant
            n == targets@.len(),
            n == outcomes@.len(),
            rs == records(targets@, outcomes@),
            i <= n,
            names(succeeded@) == names_with(rs.take(i as int), true),
            names(failed@) == names_with(rs.take(i as int), false),
        decreases n - i,
    {
        assert(rs.take(i + 1).drop_last() =~= rs.take(i as int));
        assert(rs.take(i + 1).last() == rs[i as int]);
        match outcomes[i] {
            Some(o) => {
                let name = targets[i].clone();
                if o.succeeded() {
                    succeeded.push(name);
                    assert(names(succeeded@) =~= names_with(rs.take(i as int), true).push(
                        rs[i as int].0,
                    ));
                } else {
                    failed.push(name);
                    assert(names(failed@) =~= names_with(rs.take(i as int), false).push(
                        rs[i as int].0,
                    ));
                }
            },
            None => {},
        }
        i += 1;
    }
    assert(rs.take(n as int) =~= rs);
    RunSummary { total: n, succeeded, failed }
}

/// Once every target has finished, the succeeded and the failed targets together
/// number exactly as many as the targets.
pub proof fn lemma_counts_add_up(rs: Seq<Record>)
    requires
        all_finished(rs),
    ensures
        names_with(rs, true).len() + names_with(rs, false).len() == rs.len(),
    decreases rs.len(),
{
    lemma_partition(rs);
    let a = names_with(rs, true);
    let b = names_with(rs, false);
    a.to_multiset_ensures();
    b.to_multiset_ensures();
    record_names(rs).to_multiset_ensures();
    assert(a.to_multiset().add(b.to_multiset()).len() == a.len() + b.len());
}

/// Once every target has finished, each target name appears across the succeeded
/// and the failed lists exactly as often as among the targets: none is lost and
/// none is counted twice.
pub proof fn lemma_partition(rs: Seq<Record>)
    requires
        all_finished(rs),
    ensures
        names_with(rs, true).to_multiset().add(names_with(rs, false).to_multiset())
            == record_names(rs).to_multiset(),
    decreases rs.len(),
{
    if rs.len() == 0 {
        assert(record_names(rs) =~= Seq::<Seq<char>>::empty());
        assert(names_with(rs, true).to_multiset().add(names_with(rs, false).to_multiset())
            =~= record_names(rs).to_multiset());
    } else {
        let init = rs.drop_last();
        assert(all_finished(init)) by {
            assert forall|i: int| 0 <= i < init.len() implies (#[trigger] init[i]).1 is Some by {
                assert(init[i] == rs[i]);
            }
        }
        lemma_partition(init);
        let last = rs.last();
        assert(record_names(rs) =~= record_names(init).push(last.0));
        assert(rs[rs.len() - 1].1 is Some);
        assert(last.1 is Some);
        let a = names_with(init, true);
        let b = names_with(init, false);
        let m = record_names(init);
        assert(m.push(last.0).to_multiset() =~= m.to_multiset().insert(last.0));
        if last.1 == Some(true) {
            assert(a.push(last.0).to_multiset() =~= a.to_multiset().insert(last.0));
            assert(a.to_multiset().insert(last.0).add(b.to_multiset()) =~= a.to_multiset().add(
                b.to_multiset(),
            ).insert(last.0));
            assert(names_with(rs, true) == a.push(last.0));
            assert(names_with(rs, false) == b);
        } else {
            assert(last.1 == Some(false));
            assert(names_with(rs, true) == a);
            assert(names_with(rs, false) == b.push(last.0));
            assert(b.push(last.0).to_multiset() =~= b.to_multiset().insert(last.0));
            assert(a.to_multiset().add(b.to_multiset().insert(last.0)) =~= a.to_multiset().add(
                b.to_multiset(),
            ).insert(last.0));
        }
        assert(names_with(rs, true).to_multiset().add(names_with(rs, false).to_multiset())
            =~= record_names(rs).to_multiset());
    }
}

/// A name is among those with verdict `ok` exactly when some record holds that
/// name with that verdict.
pub proof fn lemma_names_with_contains(rs: Seq<Record>, ok: bool, x: Seq<char>)
    ensures
        names_with(rs, ok).contains(x) <==> rs.contains((x, Some(ok))),
    decreases rs.len(),
{
    if rs.len() > 0 {
        let init = rs.drop_last();
        lemma_names_with_contains(init, ok, x);
        assert(rs =~= init.push(rs.last()));
        if init.contains((x, Some(ok))) {
            let j = choose|j: int| 0 <= j < init.len() && init[j] == (x, Some(ok));
            assert(rs[j] == init[j]);
        }
        if rs.contains((x, Some(ok))) {
            let j = choose|j: int| 0 <= j < rs.len() && rs[j] == (x, Some(ok));
            if j < init.len() {
                assert(init[j] == rs[j]);
            }
        }
        if names_with(rs, ok).contains(x) && rs.last().1 == Some(ok) {
            let rest = names_with(init, ok);
            let j = choose|j: int| 0 <= j < rest.len() + 1 && rest.push(rs.last().0)[j] == x;
            if j < rest.len() {
                assert(rest.contains(x));
            }
        }
        if rs.last().1 == Some(ok) && rs.last().0 == x {
            let rest = names_with(init, ok);
            assert(rest.push(x)[rest.len() as int] == x);
        }
        if names_with(init, ok).contains(x) && rs.last().1 == Some(ok) {
            let rest = names_with(init, ok);
            let j = choose|j: int| 0 <= j < rest.len() && rest[j] == x;
            assert(rest.push(rs.last().0)[j] == x);
        }
    }
}

/// Reordering the targets (each keeping its own outcome) leaves the set of
/// succeeded names and the set of failed names unchanged.
pub proof fn lemma_order_independent(rs1: Seq<Record>, rs2: Seq<Record>)
    requires
        rs1.to_multiset() == rs2.to_multiset(),
    ensures
        names_with(rs1, true).to_set() == names_with(rs2, true).to_set(),
        names_with(rs1, false).to_set() == names_with(rs2, false).to_set(),
{
    assert forall|ok: bool, x: Seq<char>|
        names_with(rs1, ok).contains(x) <==> names_with(rs2, ok).contains(x) by {
        lemma_names_with_contains(rs1, ok, x);
        lemma_names_with_contains(rs2, ok, x);
        rs1.to_multiset_ensures();
        rs2.to_multiset_ensures();
        let p: Record = (x, Some(ok));
        assert(rs1.contains(p) <==> rs1.to_multiset().count(p) > 0);
        assert(rs2.contains(p) <==> rs2.to_multiset().count(p) > 0);
    }
    assert(names_with(rs1, true).to_set() =~= names_with(rs2, true).to_set());
    assert(names_with(rs1, false).to_set() =~= names_with(rs2, false).to_set());
}

/// Whole seconds in the span from `start` to `end`, both in nanoseconds since the
/// Unix epoch, rounded toward zero.
pub open spec fn whole_seconds_spec(start: int, end: int) -> int {
    let d = end - start;
    if d >= 0 {
        d / 1_000_000_000
    } else {
        -((-d) / 1_000_000_000)
    }
}

/// The whole seconds elapsed between two instants given in nanoseconds since the
/// Unix epoch; a negative span rounds toward zero.
pub fn whole_seconds_between(start: i128, end: i128) -> (r: i128)
    requires
        i128::MIN < end - start <= i128::MAX,
    ensures
        r == whole_seconds_spec(start as int, end as int),
{
    let d: i128 = end - start;
    if d >= 0 {
        d / 1_000_000_000
    } else {
        -((-d) / 1_000_000_000)
    }
}

} // verus!
