use rustybot::polling::{Action, Event, Outcome, PollingEngine, Stage, Status};

/// Feeds `readings` to a fresh engine, never asking it to stop; returns how
/// it ended and after how many queries.
fn run_readings(threshold: usize, readings: &[Result<Status, String>]) -> (Option<Outcome>, usize) {
    let mut engine = PollingEngine::new(threshold);
    let mut queries = 0;
    let mut ev = Event::Begin;
    loop {
        match engine.step(ev) {
            Action::CheckStop => ev = Event::StopChecked(false),
            Action::Sleep => ev = Event::Woke,
            Action::Query => {
                if queries == readings.len() {
                    return (None, queries);
                }
                ev = Event::Queried(readings[queries].clone());
                queries += 1;
            }
            Action::Finish(o) => return (Some(o), queries),
        }
    }
}

fn settled(n: usize) -> Vec<Result<Status, String>> {
    vec![Ok(Status::Settled); n]
}

#[test]
fn done_after_threshold_settled() {
    assert_eq!(run_readings(3, &settled(5)), (Some(Outcome::Done), 3));
    assert_eq!(run_readings(1, &settled(5)), (Some(Outcome::Done), 1));
    assert_eq!(run_readings(13, &settled(20)), (Some(Outcome::Done), 13));
    assert_eq!(run_readings(3, &settled(2)), (None, 2));
}

#[test]
fn busy_just_before_threshold_resets() {
    let mut r = settled(2);
    r.push(Ok(Status::Busy));
    r.extend(settled(2));
    assert_eq!(run_readings(3, &r), (None, 5));
    r.extend(settled(1));
    assert_eq!(run_readings(3, &r), (Some(Outcome::Done), 6));
}

#[test]
fn other_status_keeps_progress() {
    let r = vec![Ok(Status::Settled), Ok(Status::Other), Ok(Status::Settled), Ok(Status::Settled)];
    assert_eq!(run_readings(3, &r), (Some(Outcome::Done), 4));
}

#[test]
fn failed_query_aborts_at_once() {
    let r = vec![Ok(Status::Settled), Err("malformed".to_owned()), Ok(Status::Settled)];
    assert_eq!(run_readings(2, &r), (Some(Outcome::Aborted("malformed".to_owned())), 2));
}

#[test]
fn engine_order_of_actions() {
    let mut e = PollingEngine::new(2);
    assert_eq!(e.stage, Stage::Starting);
    assert!(!e.accepts(&Event::Woke));
    assert_eq!(e.step(Event::Begin), Action::CheckStop);
    assert_eq!(e.step(Event::StopChecked(false)), Action::Query);
    assert_eq!(e.step(Event::Queried(Ok(Status::Settled))), Action::CheckStop);
    assert_eq!(e.stable_count, 1);
    assert_eq!(e.step(Event::StopChecked(false)), Action::Sleep);
    assert_eq!(e.step(Event::Woke), Action::CheckStop);
    assert_eq!(e.step(Event::StopChecked(true)), Action::Finish(Outcome::Cancelled));
    assert!(e.is_finished());
    assert!(!e.accepts(&Event::Queried(Ok(Status::Settled))));
}
