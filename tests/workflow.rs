use rustybot::workflow::{Command, WorkStep, Workflow, WorkflowAction, WorkflowEnd, WorkflowEvent};
use rustybot::workflow::WorkStep::{Pause, PollIndexer, PollVisIndexer, ResizeInstance, StopInstance};

/// Runs a workflow where each step succeeds unless `fails` names it and
/// the cancel flag reads `stop_after` steps in; returns the steps run and
/// how it ended.
fn run(command: Command, fails: Option<WorkStep>, stop_after: usize) -> (Vec<WorkStep>, WorkflowEnd) {
    let mut w = Workflow::new(command);
    let mut ran = vec![];
    let mut ev = WorkflowEvent::Begin;
    loop {
        assert!(w.accepts(ev));
        match w.step(ev) {
            WorkflowAction::Run(s) => {
                ran.push(s);
                ev = WorkflowEvent::StepFinished(fails != Some(s));
            }
            WorkflowAction::CheckStop => ev = WorkflowEvent::StopChecked(ran.len() >= stop_after),
            WorkflowAction::Finish(end) => return (ran, end),
        }
    }
}

#[test]
fn kronitor_runs_every_step() {
    assert_eq!(
        run(Command::Kronitor, None, usize::MAX),
        (
            vec![PollIndexer, PollVisIndexer, StopInstance, Pause, ResizeInstance],
            WorkflowEnd::Completed
        )
    );
    assert_eq!(
        run(Command::Konitor, None, usize::MAX),
        (vec![PollIndexer, PollVisIndexer, StopInstance], WorkflowEnd::Completed)
    );
    assert_eq!(run(Command::Monitor, None, usize::MAX), (vec![PollIndexer], WorkflowEnd::Completed));
    assert_eq!(
        run(Command::Vonitor, Some(PollVisIndexer), usize::MAX),
        (vec![PollVisIndexer], WorkflowEnd::Failed)
    );
}

#[test]
fn failed_poll_ends_the_job() {
    assert_eq!(
        run(Command::Kronitor, Some(PollIndexer), usize::MAX),
        (vec![PollIndexer], WorkflowEnd::Failed)
    );
}

#[test]
fn failed_stop_does_not_end_the_job() {
    assert_eq!(
        run(Command::Kronitor, Some(StopInstance), usize::MAX),
        (
            vec![PollIndexer, PollVisIndexer, StopInstance, Pause, ResizeInstance],
            WorkflowEnd::Completed
        )
    );
}

#[test]
fn cancel_between_steps() {
    assert_eq!(
        run(Command::Kronitor, None, 3),
        (vec![PollIndexer, PollVisIndexer, StopInstance], WorkflowEnd::Cancelled)
    );
}
