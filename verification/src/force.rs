//! The course of a run in force mode: every unit is attempted once, in
//! order, and no failure ends the run before the last unit.

use vstd::prelude::*;

verus! {

/// How the attempt of one unit ended.
#[derive(Debug)]
pub struct ExecutionOutcome {
    /// The position of the unit in the plan.
    pub unit: usize,
    /// Why the unit failed, if it did.
    pub failure: Option<String>,
}

/// The course of a run over the units of a plan.
#[derive(Debug)]
pub struct ForceRun {
    total: usize,
    outcomes: Vec<ExecutionOutcome>,
}

/// The number of failures among the first `count` outcomes.
pub open spec fn failures_among(outcomes: Seq<ExecutionOutcome>, count: nat) -> nat
    decreases count,
{
    if 0 < count <= outcomes.len() {
        failures_among(outcomes, (count - 1) as nat) + if outcomes[count - 1].failure is Some {
            1nat
        } else {
            0nat
        }
    } else {
        0
    }
}

impl ForceRun {
    /// The number of units of the plan.
    pub closed spec fn total(&self) -> nat {
        self.total as nat
    }

    /// The outcomes so far, in the order of the attempts.
    pub closed spec fn outcomes(&self) -> Seq<ExecutionOutcome> {
        self.outcomes@
    }

    /// The units were attempted in the order of the plan, each once, and
    /// none beyond the plan.
    pub closed spec fn wf(&self) -> bool {
        &&& self.outcomes@.len() <= self.total
        &&& forall|i: int| 0 <= i < self.outcomes@.len() ==> (#[trigger] self.outcomes@[i]).unit == i
    }

    /// The run is over when every unit has its outcome.
    pub open spec fn finished(&self) -> bool {
        self.outcomes().len() == self.total()
    }

    /// In the course of a run, the outcome at each position is that of
    /// the unit at that position: every unit attempted so far was
    /// attempted exactly once, and a finished run has attempted them
    /// all, whatever failed on the way.
    pub proof fn lemma_each_unit_once(&self)
        requires
            self.wf(),
        ensures
            self.outcomes().len() <= self.total(),
            forall|i: int| 0 <= i < self.outcomes().len() ==> (#[trigger] self.outcomes()[i]).unit == i,
            forall|i: int, j: int|
                0 <= i < self.outcomes().len() && 0 <= j < self.outcomes().len() && (
                #[trigger] self.outcomes()[i]).unit == (#[trigger] self.outcomes()[j]).unit ==> i
                    == j,
            self.finished() ==> forall|unit: int|
                0 <= unit < self.total() ==> (#[trigger] self.outcomes()[unit]).unit == unit,
    {
    }

    /// The start of a run over `total` units.
    pub fn new(total: usize) -> (r: ForceRun)
        ensures
            r.wf(),
            r.total() == total,
            r.outcomes() == Seq::<ExecutionOutcome>::empty(),
    {
        ForceRun { total, outcomes: Vec::new() }
    }

    /// The unit to attempt next: the one after the last attempted, until
    /// all have been.
    pub fn next(&self) -> (r: Option<usize>)
        requires
            self.wf(),
        ensures
            r == if self.finished() {
                None
            } else {
                Some(self.outcomes().len() as usize)
            },
    {
        if self.outcomes.len() < self.total {
            Some(self.outcomes.len())
        } else {
            None
        }
    }

    /// Whether every unit has been attempted.
    pub fn is_finished(&self) -> (r: bool)
        requires
            self.wf(),
        ensures
            r == self.finished(),
    {
        self.outcomes.len() >= self.total
    }

    /// Records how the attempt of the next unit ended. A failure is kept
    /// with its reason, and the run goes on with the unit after it. On a
    /// finished run nothing is recorded.
    pub fn record(&mut self, failure: Option<String>) -> (recorded: bool)
        requires
            old(self).wf(),
        ensures
            final(self).wf(),
            final(self).total() == old(self).total(),
            recorded == !old(self).finished(),
            final(self).outcomes() == if recorded {
                old(self).outcomes().push(
                    ExecutionOutcome { unit: old(self).outcomes().len() as usize, failure },
                )
            } else {
                old(self).outcomes()
            },
    {
        if self.outcomes.len() < self.total {
            let unit = self.outcomes.len();
            self.outcomes.push(ExecutionOutcome { unit, failure });
            true
        } else {
            false
        }
    }

    /// Runs over all units of a plan: `attempt` is called for each unit
    /// once, in the order of the plan, and what it returns is kept as the
    /// unit's outcome. A failure does not end the run: the unit after it
    /// is attempted all the same.
    pub fn run_all<F: Fn(usize) -> Option<String>>(total: usize, attempt: F) -> (run: ForceRun)
        requires
            forall|unit: usize| unit < total ==> call_requires(attempt, (unit,)),
        ensures
            run.wf(),
            run.total() == total,
            run.finished(),
            forall|unit: int|
                0 <= unit < total ==> (#[trigger] run.outcomes()[unit]).unit == unit
                    && call_ensures(attempt, (unit as usize,), run.outcomes()[unit].failure),
    {
        let mut run = ForceRun::new(total);
        let mut unit: usize = 0;
        while unit < total
            invariant
                run.wf(),
                run.total() == total,
                unit <= total,
                run.outcomes().len() == unit,
                forall|unit: usize| unit < total ==> call_requires(attempt, (unit,)),
                forall|done: int|
                    0 <= done < unit ==> (#[trigger] run.outcomes()[done]).unit == done
                        && call_ensures(attempt, (done as usize,), run.outcomes()[done].failure),
            decreases total - unit,
        {
            let failure = attempt(unit);
            run.record(failure);
            unit += 1;
        }
        run
    }

    /// The outcome of a unit that has been attempted.
    pub fn outcome(&self, unit: usize) -> (r: Option<&ExecutionOutcome>)
        requires
            self.wf(),
        ensures
            match r {
                Some(outcome) => unit < self.outcomes().len() && *outcome == self.outcomes()[unit as int]
                    && outcome.unit == unit,
                None => unit >= self.outcomes().len(),
            },
    {
        if unit < self.outcomes.len() {
            Some(&self.outcomes[unit])
        } else {
            None
        }
    }

    /// The number of units attempted so far.
    pub fn attempted(&self) -> (r: usize)
        ensures
            r == self.outcomes().len(),
    {
        self.outcomes.len()
    }

    /// The number of units that failed so far.
    pub fn failed(&self) -> (r: usize)
        ensures
            r == failures_among(self.outcomes(), self.outcomes().len()),
    {
        let mut count: usize = 0;
        let mut i: usize = 0;
        while i < self.outcomes.len()
            invariant
                i <= self.outcomes@.len(),
                count <= i,
                count == failures_among(self.outcomes@, i as nat),
            decreases self.outcomes@.len() - i,
        {
            if self.outcomes[i].failure.is_some() {
                count += 1;
            }
            i += 1;
        }
        count
    }

    /// The number of units that succeeded so far.
    pub fn succeeded(&self) -> (r: usize)
        ensures
            r == self.outcomes().len() - failures_among(self.outcomes(), self.outcomes().len()),
    {
        let failed = self.failed();
        proof {
            lemma_failures_bounded(self.outcomes@, self.outcomes@.len());
        }
        self.outcomes.len() - failed
    }
}

proof fn lemma_failures_bounded(outcomes: Seq<ExecutionOutcome>, count: nat)
    requires
        count <= outcomes.len(),
    ensures
        failures_among(outcomes, count) <= count,
    decreases count,
{
    if count > 0 {
        lemma_failures_bounded(outcomes, (count - 1) as nat);
    }
}

} // verus!
