//! The single consumer of outcomes: counts them, keeps the first failure,
//! stops at it, and decides how the run ended.
use vstd::prelude::*;
use crate::outcome::{Outcome, Report};

verus! {

/// The collector's state, as numbers and the first failure's report.
pub struct Tally {
    pub total: nat,
    pub done: nat,
    pub succeeded: nat,
    pub first_failure: Option<(nat, Seq<char>)>,
    pub stopped: bool,
}

/// The state before any outcome has come in.
pub open spec fn fresh(total: nat) -> Tally {
    Tally { total, done: 0, succeeded: 0, first_failure: None, stopped: false }
}

/// The counts are within their bounds: `succeeded <= done <= total`.
pub open spec fn bounded(t: Tally) -> bool {
    t.succeeded <= t.done <= t.total
}

/// The state after one more outcome: it is counted, a success is counted
/// as such, the first failure is kept, and a failure stops the collector.
pub open spec fn step(t: Tally, o: Report) -> Tally {
    Tally {
        total: t.total,
        done: t.done + 1,
        succeeded: if o.success { t.succeeded + 1 } else { t.succeeded },
        first_failure: if !o.success && t.first_failure is None {
            Some((o.task, o.diagnostic))
        } else {
            t.first_failure
        },
        stopped: t.stopped || !o.success,
    }
}

/// The state after the collector has read `os` in turn, up to and
/// including the first failure; what comes after that is never read.
pub open spec fn collect(t: Tally, os: Seq<Report>) -> Tally
    decreases os.len(),
{
    if os.len() == 0 || t.stopped {
        t
    } else {
        collect(step(t, os[0]), os.drop_first())
    }
}

/// How a run ended.
#[derive(PartialEq, Eq, Structural, Clone, Copy, Debug)]
pub enum Verdict {
    /// Every task ran and succeeded.
    Success,
    /// A task failed: the first one that the collector saw.
    Failed { task_id: usize },
    /// The run ended short of its total with no failure seen.
    Stopped { done: usize, succeeded: usize },
}

/// The verdict on a state.
pub open spec fn verdict_of(t: Tally) -> Verdict {
    if t.done == t.total && t.succeeded == t.total {
        Verdict::Success
    } else {
        match t.first_failure {
            Some((k, _)) => Verdict::Failed { task_id: k as usize },
            None => Verdict::Stopped { done: t.done as usize, succeeded: t.succeeded as usize },
        }
    }
}

impl Verdict {
    /// The exit status that goes with this verdict (0 for `Success`, 1 otherwise).
    pub fn exit_code(&self) -> (r: i32)
        ensures
            (r == 0) == (*self == Verdict::Success),
            r == 0 || r == 1,
    {
        match self {
            Verdict::Success => 0,
            _ => 1,
        }
    }
}

/// Counts of a run at one moment, for the progress line.
#[derive(PartialEq, Eq, Structural, Clone, Copy, Debug)]
pub struct Progress {
    pub done: usize,
    pub total: usize,
    pub succeeded: usize,
    pub failed: usize,
}

/// The first failure: the task and its diagnostic.
pub struct Failure {
    pub task_id: usize,
    pub diagnostic: String,
}

/// The state of a run, owned by its collector.
pub struct RunState {
    total: usize,
    done: usize,
    succeeded: usize,
    first_failure: Option<Failure>,
    stopped: bool,
}

impl View for RunState {
    type V = Tally;

    closed spec fn view(&self) -> Tally {
        Tally {
            total: self.total as nat,
            done: self.done as nat,
            succeeded: self.succeeded as nat,
            first_failure: match self.first_failure {
                Some(f) => Some((f.task_id as nat, f.diagnostic@)),
                None => None,
            },
            stopped: self.stopped,
        }
    }
}

impl RunState {
    /// The counts are within their bounds.
    pub open spec fn wf(&self) -> bool {
        bounded(self@)
    }

    /// The state of a run of `total` tasks before any outcome.
    pub fn new(total: usize) -> (r: RunState)
        ensures
            r@ == fresh(total as nat),
            r.wf(),
    {
        RunState { total, done: 0, succeeded: 0, first_failure: None, stopped: false }
    }

    /// The number of tasks in the run.
    pub fn total(&self) -> (r: usize)
        ensures
            r == self@.total,
    {
        self.total
    }

    /// The number of outcomes counted.
    pub fn done(&self) -> (r: usize)
        ensures
            r == self@.done,
    {
        self.done
    }

    /// The number of successes counted.
    pub fn succeeded(&self) -> (r: usize)
        ensures
            r == self@.succeeded,
    {
        self.succeeded
    }

    /// Whether a failure has stopped the collector.
    pub fn is_stopped(&self) -> (r: bool)
        ensures
            r == self@.stopped,
    {
        self.stopped
    }

    /// The task of the first failure, if any.
    pub fn first_failure_task(&self) -> (r: Option<usize>)
        ensures
            r matches Some(k) ==> self@.first_failure matches Some(f) && f.0 == k,
            r is None ==> self@.first_failure is None,
    {
        match &self.first_failure {
            Some(f) => Some(f.task_id),
            None => None,
        }
    }

    /// The diagnostic of the first failure, if any.
    pub fn first_failure_diagnostic(&self) -> (r: Option<&String>)
        ensures
            r matches Some(d) ==> self@.first_failure matches Some(f) && f.1 == d@,
            r is None ==> self@.first_failure is None,
    {
        match &self.first_failure {
            Some(f) => Some(&f.diagnostic),
            None => None,
        }
    }

    /// Whether another outcome can still be counted.
    pub fn has_room(&self) -> (r: bool)
        ensures
            r == (self@.done < self@.total),
    {
        self.done < self.total
    }

    /// Counts one outcome, keeps it when it is the first failure, and
    /// says whether the collector goes on reading (it stops at a failure).
    pub fn record(&mut self, o: Outcome) -> (go_on: bool)
        requires
            old(self).wf(),
            old(self)@.done < old(self)@.total,
        ensures
            final(self)@ == step(old(self)@, o@),
            final(self).wf(),
            go_on == !final(self)@.stopped,
    {
        self.done = self.done + 1;
        if o.success {
            self.succeeded = self.succeeded + 1;
        } else {
            if self.first_failure.is_none() {
                self.first_failure = Some(Failure { task_id: o.task_id, diagnostic: o.diagnostic });
            }
            self.stopped = true;
        }
        !self.stopped
    }

    /// The counts for a progress line; `failed` is `done - succeeded`.
    pub fn progress(&self) -> (r: Progress)
        requires
            self.wf(),
        ensures
            r.done == self@.done,
            r.total == self@.total,
            r.succeeded == self@.succeeded,
            r.failed == self@.done - self@.succeeded,
            r.succeeded <= r.done <= r.total,
    {
        Progress {
            done: self.done,
            total: self.total,
            succeeded: self.succeeded,
            failed: self.done - self.succeeded,
        }
    }

    /// How the run ended, given this final state.
    pub fn verdict(&self) -> (r: Verdict)
        ensures
            r == verdict_of(self@),
    {
        if self.done == self.total && self.succeeded == self.total {
            Verdict::Success
        } else {
            match &self.first_failure {
                Some(f) => Verdict::Failed { task_id: f.task_id },
                None => Verdict::Stopped { done: self.done, succeeded: self.succeeded },
            }
        }
    }
}

/// When every task succeeds, a run of `total` tasks ends with every task
/// counted as done and succeeded, and with the verdict `Success`, whatever
/// order the outcomes come in.
pub proof fn law_all_succeed(total: nat, os: Seq<Report>)
    requires
        os.len() == total,
        forall|i: int| 0 <= i < os.len() ==> #[trigger] os[i].success,
    ensures
        collect(fresh(total), os).done == total,
        collect(fresh(total), os).succeeded == total,
        verdict_of(collect(fresh(total), os)) == Verdict::Success,
{
    lemma_collect_successes(fresh(total), os);
}

proof fn lemma_collect_successes(t: Tally, os: Seq<Report>)
    requires
        !t.stopped,
        forall|i: int| 0 <= i < os.len() ==> #[trigger] os[i].success,
    ensures
        collect(t, os).done == t.done + os.len(),
        collect(t, os).succeeded == t.succeeded + os.len(),
        collect(t, os).total == t.total,
        !collect(t, os).stopped,
    decreases os.len(),
{
    if os.len() > 0 {
        assert(os[0].success);
        let rest = os.drop_first();
        assert forall|i: int| 0 <= i < rest.len() implies #[trigger] rest[i].success by {
            assert(os[i + 1].success);
        }
        lemma_collect_successes(step(t, os[0]), rest);
    }
}

/// When exactly one outcome is a failure, the run ends with fewer
/// successes than tasks, that failure as the first failure, and the verdict
/// `Failed` naming its task, whatever the number of workers.
pub proof fn law_single_failure(total: nat, os: Seq<Report>, j: int)
    requires
        os.len() <= total,
        0 <= j < os.len(),
        !os[j].success,
        forall|i: int| 0 <= i < os.len() && i != j ==> #[trigger] os[i].success,
    ensures
        collect(fresh(total), os).succeeded < total,
        collect(fresh(total), os).first_failure == Some((os[j].task, os[j].diagnostic)),
        verdict_of(collect(fresh(total), os)) == (Verdict::Failed { task_id: os[j].task as usize }),
{
    lemma_collect_until_failure(fresh(total), os, j);
}

proof fn lemma_collect_until_failure(t: Tally, os: Seq<Report>, j: int)
    requires
        !t.stopped,
        t.first_failure is None,
        t.succeeded == t.done,
        0 <= j < os.len(),
        !os[j].success,
        forall|i: int| 0 <= i < j ==> #[trigger] os[i].success,
    ensures
        collect(t, os).done == t.done + j + 1,
        collect(t, os).succeeded == t.succeeded + j,
        collect(t, os).first_failure == Some((os[j].task, os[j].diagnostic)),
        collect(t, os).stopped,
    decreases os.len(),
{
    let rest = os.drop_first();
    let t1 = step(t, os[0]);
    if j == 0 {
        assert(t1.stopped);
    } else {
        assert(os[0].success);
        assert forall|i: int| 0 <= i < j - 1 implies #[trigger] rest[i].success by {
            assert(os[i + 1].success);
        }
        lemma_collect_until_failure(t1, rest, j - 1);
    }
}

/// At every point of a run, `done` stays within `total` and `succeeded`
/// within `done`: each state that the collector passes through is bounded.
pub proof fn law_counts_bounded(t: Tally, os: Seq<Report>, k: int)
    requires
        bounded(t),
        t.done + os.len() <= t.total,
        0 <= k <= os.len(),
    ensures
        bounded(collect(t, os.take(k))),
    decreases os.len(),
{
    if k > 0 && !t.stopped {
        let t1 = step(t, os[0]);
        assert(os.take(k).drop_first() =~= os.drop_first().take(k - 1));
        law_counts_bounded(t1, os.drop_first(), k - 1);
    }
}

/// Once the collector has stopped, no later outcome changes its state:
/// further failures from other workers leave the ending as the first one
/// made it.
pub proof fn law_stopped_is_final(t: Tally, os: Seq<Report>)
    requires
        t.stopped,
    ensures
        collect(t, os) == t,
{
}

} // verus!
