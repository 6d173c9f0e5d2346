//! The dispatch protocol: the cancellation flag, the ordered task source
//! that feeds the queue, and the decisions a worker takes around a task.
use vstd::prelude::*;

verus! {

/// The run-wide request to stop: once set, it stays set.
pub struct CancelFlag {
    set: bool,
}

impl View for CancelFlag {
    type V = bool;

    closed spec fn view(&self) -> bool {
        self.set
    }
}

impl CancelFlag {
    /// A flag that is not set.
    pub fn new() -> (r: CancelFlag)
        ensures
            !r@,
    {
        CancelFlag { set: false }
    }

    /// Sets the flag; setting it again changes nothing.
    pub fn cancel(&mut self)
        ensures
            final(self)@,
    {
        self.set = true;
    }

    /// Whether the flag is set.
    pub fn is_cancelled(&self) -> (r: bool)
        ensures
            r == self@,
    {
        self.set
    }
}

/// The state of a flag after `k` more requests to cancel.
pub open spec fn cancelled_after(set: bool, k: nat) -> bool {
    set || k > 0
}

/// Cancelling is idempotent: after one request or any larger number of
/// them, the flag is in the same state, and so are the decisions of the
/// producer and of every worker, which read nothing else of it.
pub proof fn law_cancel_idempotent(set: bool, k: nat)
    requires
        k >= 1,
    ensures
        cancelled_after(set, k) == cancelled_after(set, 1),
        cancelled_after(cancelled_after(set, 1), k) == cancelled_after(set, 1),
        forall|r: Option<usize>|
            #[trigger] task_to_run(r, cancelled_after(set, k)) == task_to_run(
                r,
                cancelled_after(set, 1),
            ),
{
}

/// The identifiers `[lo, hi]` in ascending order (empty when `hi < lo`).
pub open spec fn ids(lo: int, hi: int) -> Seq<usize> {
    Seq::new(if hi >= lo { (hi - lo + 1) as nat } else { 0 }, |i: int| (lo + i) as usize)
}

/// Emits the identifiers of a range in ascending order, one at a time,
/// until the range is exhausted or the run is cancelled.
pub struct TaskSource {
    next: usize,
    end: usize,
    finished: bool,
}

impl View for TaskSource {
    type V = Seq<usize>;

    /// The identifiers still to emit.
    closed spec fn view(&self) -> Seq<usize> {
        if self.finished { Seq::empty() } else { ids(self.next as int, self.end as int) }
    }
}

impl TaskSource {
    /// An unfinished source has its next identifier within the range.
    pub closed spec fn wf(&self) -> bool {
        !self.finished ==> self.next <= self.end
    }

    /// A source for the identifiers `start..=end`.
    pub fn new(start: usize, end: usize) -> (r: TaskSource)
        ensures
            r@ == ids(start as int, end as int),
            r.wf(),
    {
        TaskSource { next: start, end, finished: end < start }
    }

    /// The next identifier to put in the queue, or `None` once the range
    /// is exhausted or when `cancelled`, after which it emits nothing more.
    pub fn next_task(&mut self, cancelled: bool) -> (r: Option<usize>)
        requires
            old(self).wf(),
        ensures
            final(self).wf(),
            cancelled ==> r is None && final(self)@.len() == 0,
            !cancelled && old(self)@.len() == 0 ==> r is None && final(self)@.len() == 0,
            !cancelled && old(self)@.len() > 0 ==> r == Some(old(self)@[0]) && final(self)@
                == old(self)@.drop_first(),
    {
        if cancelled || self.finished {
            self.finished = true;
            return None;
        }
        let n = self.next;
        if n >= self.end {
            self.finished = true;
        } else {
            self.next = n + 1;
        }
        proof {
            assert(old(self)@[0] == n);
            assert(final(self)@ =~= old(self)@.drop_first());
        }
        Some(n)
    }
}

/// What a worker does with what it took from the queue: the task to run,
/// or `None` when the queue is closed or the run was cancelled while it
/// waited (the task it took is then dropped, not run and not counted).
pub open spec fn task_to_run(received: Option<usize>, cancelled: bool) -> Option<usize> {
    if cancelled { None } else { received }
}

/// A worker's decision after taking from the queue.
pub fn accept_task(received: Option<usize>, cancelled: bool) -> (r: Option<usize>)
    ensures
        r == task_to_run(received, cancelled),
{
    if cancelled {
        None
    } else {
        received
    }
}

/// Whether a worker cancels the run after a task: it does on a failure.
pub fn cancels_run(o: &crate::outcome::Outcome) -> (r: bool)
    ensures
        r == !o.success,
{
    !o.success
}

} // verus!
