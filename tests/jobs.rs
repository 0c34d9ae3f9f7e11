use rustybot::jobs::{CompletionGuard, JobSupervisor, JobTicket, FIRST_JOB_ID};
use rustybot::polling::{Action, Event, Outcome, PollingEngine, Status};

struct Run {
    outcome: Outcome,
    queries: usize,
    checks: usize,
}

/// Drives an engine to its end; `report` gives the n-th query's result and
/// `before_check` runs before each read of the cancel flag.
fn drive(
    engine: &mut PollingEngine,
    ticket: &JobTicket,
    report: &mut dyn FnMut(usize) -> Result<Status, String>,
    before_check: &mut dyn FnMut(usize),
) -> Run {
    let mut queries = 0;
    let mut checks = 0;
    let mut ev = Event::Begin;
    loop {
        assert!(engine.accepts(&ev));
        match engine.step(ev) {
            Action::CheckStop => {
                before_check(queries);
                checks += 1;
                ev = Event::StopChecked(ticket.should_stop());
            }
            Action::Query => {
                let r = report(queries);
                queries += 1;
                ev = Event::Queried(r);
            }
            Action::Sleep => ev = Event::Woke,
            Action::Finish(outcome) => {
                return Run { outcome, queries, checks };
            }
        }
    }
}

#[test]
fn ids_are_fresh_and_increasing() {
    let mut sup = JobSupervisor::new();
    let a = sup.submit("one".to_owned()).unwrap();
    let b = sup.submit("two".to_owned()).unwrap();
    assert_eq!(a.id(), FIRST_JOB_ID);
    assert_eq!(b.id(), FIRST_JOB_ID + 1);
    assert_eq!(sup.get_worker_id(), Some(FIRST_JOB_ID + 2));
    assert_eq!(
        sup.list(),
        vec![(FIRST_JOB_ID, "one".to_owned()), (FIRST_JOB_ID + 1, "two".to_owned())]
    );
}

#[test]
fn cancel_sets_the_flag_and_keeps_the_job() {
    let mut sup = JobSupervisor::new();
    let t = sup.submit("monitor".to_owned()).unwrap();
    assert!(!t.should_stop());
    assert!(sup.cancel(t.id()));
    assert!(t.should_stop());
    assert!(sup.contains(t.id()));
    assert_eq!(sup.list().len(), 1);
}

#[test]
fn cancel_twice_is_cancel_once() {
    let mut sup = JobSupervisor::new();
    let t = sup.submit("monitor".to_owned()).unwrap();
    assert!(sup.cancel(t.id()));
    let after_once = sup.list();
    assert!(sup.cancel(t.id()));
    assert_eq!(sup.list(), after_once);
    assert!(t.should_stop());
}

#[test]
fn cancel_unknown_is_not_found() {
    let mut sup = JobSupervisor::new();
    assert!(!sup.cancel(4242));
    let t = sup.submit("x".to_owned()).unwrap();
    assert!(t.complete());
    sup.reap();
    assert!(!sup.cancel(FIRST_JOB_ID));
}

#[test]
fn reap_removes_exactly_the_completed() {
    let mut sup = JobSupervisor::new();
    let a = sup.submit("a".to_owned()).unwrap();
    let b = sup.submit("b".to_owned()).unwrap();
    let c = sup.submit("c".to_owned()).unwrap();
    let (ia, ic) = (a.id(), c.id());
    assert!(sup.reap().is_empty());
    assert_eq!(sup.list().len(), 3);
    assert!(c.complete());
    assert!(a.complete());
    assert_eq!(sup.reap(), vec![ic, ia]);
    assert_eq!(sup.list(), vec![(b.id(), "b".to_owned())]);
    assert!(sup.reap().is_empty());
    assert_eq!(sup.list().len(), 1);
}

#[test]
fn every_outcome_sends_one_completion() {
    let mut sup = JobSupervisor::new();
    let outcomes = [Status::Settled, Status::Busy, Status::Other];
    let mut ids = vec![];
    for (n, status) in outcomes.iter().enumerate() {
        let t = sup.submit(format!("job {}", n)).unwrap();
        ids.push(t.id());
        let mut engine = PollingEngine::new(1);
        if n == 1 {
            sup.cancel(t.id());
        }
        let st = *status;
        let run = drive(
            &mut engine,
            &t,
            &mut |_| if n == 2 { Err("bad".to_owned()) } else { Ok(st) },
            &mut |_| {},
        );
        match n {
            0 => assert_eq!(run.outcome, Outcome::Done),
            1 => assert_eq!(run.outcome, Outcome::Cancelled),
            _ => assert_eq!(run.outcome, Outcome::Aborted("bad".to_owned())),
        }
        assert!(t.complete());
    }
    assert_eq!(sup.reap(), ids);
    assert!(sup.list().is_empty());
    assert!(sup.reap().is_empty());
}

#[test]
fn settled_job_runs_exactly_threshold_queries() {
    let mut sup = JobSupervisor::new();
    let t = sup.submit("monitor https://x.example.org".to_owned()).unwrap();
    let mut engine = PollingEngine::new(3);
    let run = drive(&mut engine, &t, &mut |_| Ok(Status::Settled), &mut |_| {});
    assert_eq!(run.outcome, Outcome::Done);
    assert_eq!(run.queries, 3);
    assert!(run.checks >= 3);
    assert!(engine.is_finished());
    let id = t.id();
    assert!(t.complete());
    assert_eq!(sup.reap(), vec![id]);
    assert!(sup.list().is_empty());
}

#[test]
fn cancelled_job_still_completes_and_is_reaped() {
    let mut sup = JobSupervisor::new();
    let t = sup.submit("monitor https://x.example.org".to_owned()).unwrap();
    let id = t.id();
    let mut engine = PollingEngine::new(3);
    let run = drive(
        &mut engine,
        &t,
        &mut |_| Ok(Status::Settled),
        &mut |queries| {
            if queries == 1 {
                sup.cancel(id);
            }
        },
    );
    assert_eq!(run.outcome, Outcome::Cancelled);
    assert_eq!(run.queries, 1);
    assert!(sup.contains(id));
    assert!(t.complete());
    sup.reap();
    assert!(sup.list().iter().all(|(j, _)| *j != id));
    assert!(!sup.contains(id));
}

#[test]
fn guard_reports_once_on_drop() {
    let mut sup = JobSupervisor::new();
    let t = sup.submit("a".to_owned()).unwrap();
    let id = t.id();
    let guard = CompletionGuard::new(t);
    assert!(!guard.should_stop());
    assert!(sup.reap().is_empty());
    drop(guard);
    assert_eq!(sup.reap(), vec![id]);
    assert!(sup.list().is_empty());
}

#[test]
fn guard_reports_once_when_completed_early() {
    let mut sup = JobSupervisor::new();
    let t = sup.submit("a".to_owned()).unwrap();
    let id = t.id();
    assert_eq!(t.done_message(), id);
    let mut guard = CompletionGuard::new(t);
    assert_eq!(guard.complete(), Some(id));
    assert!(guard.should_stop());
    assert_eq!(guard.complete(), None);
    drop(guard);
    assert_eq!(sup.reap(), vec![id]);
    assert!(sup.reap().is_empty());
}

/// A job body that may leave early with an error.
fn job(guard: CompletionGuard, fail: bool) -> Result<(), String> {
    if fail {
        return Err("external call failed".to_owned());
    }
    drop(guard);
    Ok(())
}

#[test]
fn guard_reports_on_early_return() {
    let mut sup = JobSupervisor::new();
    let a = sup.submit("a".to_owned()).unwrap();
    let b = sup.submit("b".to_owned()).unwrap();
    let (ia, ib) = (a.id(), b.id());
    assert!(job(CompletionGuard::new(a), true).is_err());
    assert!(job(CompletionGuard::new(b), false).is_ok());
    assert_eq!(sup.reap(), vec![ia, ib]);
}
