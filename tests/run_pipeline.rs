use framectl::collector::{RunState, Verdict};
use framectl::config::Config;
use framectl::dispatch::{accept_task, cancels_run, CancelFlag, TaskSource};
use framectl::outcome::{diagnostic_tail, Outcome};

struct Finish {
    state: RunState,
    invocations: usize,
    max_in_flight: usize,
}

/// Drives the pipeline one batch at a time: the source fills a batch of at
/// most `concurrency` tasks, the workers run them, and their outcomes reach
/// the collector in reverse order.
fn drive(config: &Config, fails: &dyn Fn(usize) -> bool) -> Finish {
    let total = config.total();
    let mut state = RunState::new(total);
    let mut flag = CancelFlag::new();
    let mut source = TaskSource::new(config.start, config.end);
    let mut invocations = 0;
    let mut max_in_flight = 0;
    'run: loop {
        let mut batch = Vec::new();
        while batch.len() < config.concurrency {
            match accept_task(source.next_task(flag.is_cancelled()), flag.is_cancelled()) {
                Some(n) => batch.push(n),
                None => break,
            }
        }
        if batch.is_empty() {
            break;
        }
        max_in_flight = max_in_flight.max(batch.len());
        let mut outcomes = Vec::new();
        for n in batch {
            let o = if config.dry_run {
                Outcome::dry_run(n)
            } else {
                invocations += 1;
                Outcome::finished(n, !fails(n), if fails(n) { "boom" } else { "" })
            };
            if cancels_run(&o) {
                flag.cancel();
            }
            outcomes.push(o);
        }
        while let Some(o) = outcomes.pop() {
            assert!(state.has_room());
            let go_on = state.record(o);
            let p = state.progress();
            assert!(p.done <= p.total && p.succeeded <= p.done);
            assert_eq!(p.failed, p.done - p.succeeded);
            if !go_on {
                break 'run;
            }
        }
    }
    Finish { state, invocations, max_in_flight }
}

fn config(start: usize, end: usize, concurrency: usize) -> Config {
    Config { start, end, concurrency, silent: true, dry_run: false }
}

#[test]
fn five_tasks_two_workers_all_succeed() {
    let f = drive(&config(1, 5, 2), &|_| false);
    assert_eq!(f.state.done(), 5);
    assert_eq!(f.state.succeeded(), 5);
    assert_eq!(f.state.verdict(), Verdict::Success);
    assert_eq!(f.state.verdict().exit_code(), 0);
    assert_eq!(f.invocations, 5);
}

#[test]
fn ten_tasks_four_workers_task_seven_fails() {
    let f = drive(&config(1, 10, 4), &|n| n == 7);
    assert!(f.state.succeeded() < 10);
    assert_eq!(f.state.first_failure_task(), Some(7));
    assert_eq!(f.state.verdict(), Verdict::Failed { task_id: 7 });
    assert_ne!(f.state.verdict().exit_code(), 0);
    assert_eq!(f.state.first_failure_diagnostic().map(|d| d.as_str()), Some("boom"));
}

#[test]
fn all_succeed_for_many_ranges() {
    for (start, end) in [(1, 1), (1, 7), (3, 3), (5, 40)] {
        for c in 1..=8 {
            let f = drive(&config(start, end, c), &|_| false);
            let total = end - start + 1;
            assert_eq!(f.state.done(), total);
            assert_eq!(f.state.succeeded(), total);
            assert_eq!(f.state.verdict(), Verdict::Success);
            assert!(f.max_in_flight <= c);
        }
    }
}

#[test]
fn single_failure_named_for_every_worker_count() {
    let total = 9;
    for k in 1..=total {
        for c in 1..=total {
            let f = drive(&config(1, total, c), &|n| n == k);
            assert!(f.state.succeeded() < total);
            assert_eq!(f.state.first_failure_task(), Some(k));
            assert_eq!(f.state.verdict(), Verdict::Failed { task_id: k });
            assert_eq!(f.state.verdict().exit_code(), 1);
        }
    }
}

#[test]
fn dry_run_succeeds_without_invoking_executor() {
    let mut c = config(1, 12, 3);
    c.dry_run = true;
    let f = drive(&c, &|_| true);
    assert_eq!(f.invocations, 0);
    assert_eq!(f.state.verdict(), Verdict::Success);
    assert_eq!(f.state.succeeded(), 12);
}

#[test]
fn stopped_without_failure() {
    let mut s = RunState::new(4);
    assert!(s.record(Outcome::dry_run(1)));
    assert!(s.record(Outcome::dry_run(2)));
    assert_eq!(s.verdict(), Verdict::Stopped { done: 2, succeeded: 2 });
    assert_eq!(s.verdict().exit_code(), 1);
    assert!(!s.is_stopped());
}

#[test]
fn later_failures_do_not_replace_the_first() {
    let mut s = RunState::new(5);
    assert!(!s.record(Outcome::finished(4, false, "first")));
    assert!(!s.record(Outcome::finished(2, false, "second")));
    assert_eq!(s.first_failure_task(), Some(4));
    assert_eq!(s.first_failure_diagnostic().map(|d| d.as_str()), Some("first"));
    assert_eq!(s.done(), 2);
    assert_eq!(s.succeeded(), 0);
    assert_eq!(s.verdict(), Verdict::Failed { task_id: 4 });
}

#[test]
fn cancelling_twice_is_cancelling_once() {
    let mut once = CancelFlag::new();
    once.cancel();
    let mut twice = CancelFlag::new();
    twice.cancel();
    twice.cancel();
    assert_eq!(once.is_cancelled(), twice.is_cancelled());
    assert!(twice.is_cancelled());
    assert_eq!(accept_task(Some(3), twice.is_cancelled()), None);
    assert_eq!(accept_task(Some(3), false), Some(3));
    assert_eq!(accept_task(None, false), None);
}

#[test]
fn source_emits_in_order_and_stops_on_cancel() {
    let mut s = TaskSource::new(3, 6);
    assert_eq!(s.next_task(false), Some(3));
    assert_eq!(s.next_task(false), Some(4));
    assert_eq!(s.next_task(true), None);
    assert_eq!(s.next_task(false), None);
    let mut s = TaskSource::new(5, 6);
    assert_eq!(s.next_task(false), Some(5));
    assert_eq!(s.next_task(false), Some(6));
    assert_eq!(s.next_task(false), None);
    let mut s = TaskSource::new(usize::MAX, usize::MAX);
    assert_eq!(s.next_task(false), Some(usize::MAX));
    assert_eq!(s.next_task(false), None);
}

#[test]
fn diagnostic_keeps_last_bytes() {
    let mut long = String::from("HEAD");
    long.push_str(&"x".repeat(3200));
    long.push_str("END");
    let d = diagnostic_tail(&long);
    assert_eq!(d.len(), 3000);
    assert_eq!(d, long[long.len() - 3000..]);
    assert!(d.ends_with("END"));
    assert_eq!(diagnostic_tail("short"), "short");
    assert_eq!(diagnostic_tail(""), "");
}

#[test]
fn diagnostic_does_not_split_characters() {
    // 'é' is two bytes: with one byte after them the cut falls inside one.
    let mut s = "é".repeat(1501);
    s.push('x');
    assert_eq!(s.len(), 3003);
    assert!(!s.is_char_boundary(3));
    let d = diagnostic_tail(&s);
    assert_eq!(d.len(), 2999);
    assert_eq!(d, s[4..]);
}

#[test]
fn outcome_constructors() {
    let ok = Outcome::finished(3, true, "warning text");
    assert!(ok.success);
    assert_eq!(ok.diagnostic, "");
    let bad = Outcome::finished(4, false, "error text");
    assert!(!bad.success);
    assert_eq!(bad.diagnostic, "error text");
    let spawn = Outcome::spawn_failed(5, "No such file");
    assert!(!spawn.success);
    assert_eq!(spawn.task_id, 5);
    assert_eq!(spawn.diagnostic, "spawn failed: No such file");
}
