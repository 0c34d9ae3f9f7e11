//! Multi-phase jobs: a fixed sequence of steps (poll the indexer, poll the
//! visualisation indexer, stop the instance, pause, resize it), with a
//! check of the cancel flag between any two steps and an early end when a
//! poll fails.
//!
//! Like the polling engine, the workflow makes no call itself: its driver
//! runs the steps and reads the cancel flag when asked.
use vstd::prelude::*;

verus! {

/// The commands that run as a sequence of steps.
#[derive(Clone, Copy, PartialEq, Eq, Debug, Structural)]
pub enum Command {
    /// Watch the indexer until it settles.
    Monitor,
    /// Watch the visualisation indexer until it settles.
    Vonitor,
    /// Watch both indexers, then stop the instance.
    Konitor,
    /// Watch both indexers, stop the instance, pause, then resize it.
    Kronitor,
}

/// One step of a command.
#[derive(Clone, Copy, PartialEq, Eq, Debug, Structural)]
pub enum WorkStep {
    PollIndexer,
    PollVisIndexer,
    StopInstance,
    /// Announce the resize and wait before it.
    Pause,
    ResizeInstance,
}

/// The steps of each command, in order.
pub open spec fn plan(c: Command) -> Seq<WorkStep> {
    match c {
        Command::Monitor => seq![WorkStep::PollIndexer],
        Command::Vonitor => seq![WorkStep::PollVisIndexer],
        Command::Konitor => seq![
            WorkStep::PollIndexer,
            WorkStep::PollVisIndexer,
            WorkStep::StopInstance,
        ],
        Command::Kronitor => seq![
            WorkStep::PollIndexer,
            WorkStep::PollVisIndexer,
            WorkStep::StopInstance,
            WorkStep::Pause,
            WorkStep::ResizeInstance,
        ],
    }
}

/// Whether a failure of the step ends the job: only a poll's does. The
/// instance steps report their own errors and the job goes on.
pub open spec fn ends_on_failure(s: WorkStep) -> bool {
    s == WorkStep::PollIndexer || s == WorkStep::PollVisIndexer
}

/// How a job ended.
#[derive(Clone, Copy, PartialEq, Eq, Debug, Structural)]
pub enum WorkflowEnd {
    /// Every step ran.
    Completed,
    /// A poll failed or was cancelled inside.
    Failed,
    /// The cancel flag was found set between two steps.
    Cancelled,
}

/// Where the workflow stands.
#[derive(Clone, Copy, PartialEq, Eq, Debug, Structural)]
pub enum Phase {
    Ready,
    /// The step at `pos` is running.
    Running,
    /// Waiting for the cancel flag before the step after `pos`.
    Checking,
    Finished,
}

/// What the driver tells the workflow.
#[derive(Clone, Copy, PartialEq, Eq, Debug, Structural)]
pub enum WorkflowEvent {
    Begin,
    /// The running step ended; true when it succeeded.
    StepFinished(bool),
    /// The cancel flag was read, with this value.
    StopChecked(bool),
}

/// What the workflow asks the driver to do next.
#[derive(Clone, Copy, PartialEq, Eq, Debug, Structural)]
pub enum WorkflowAction {
    Run(WorkStep),
    CheckStop,
    Finish(WorkflowEnd),
}

/// Which events the workflow takes in a phase.
pub open spec fn takes(phase: Phase, ev: WorkflowEvent) -> bool {
    match ev {
        WorkflowEvent::Begin => phase == Phase::Ready,
        WorkflowEvent::StepFinished(_) => phase == Phase::Running,
        WorkflowEvent::StopChecked(_) => phase == Phase::Checking,
    }
}

pub struct Workflow {
    pub command: Command,
    pub steps: Vec<WorkStep>,
    /// The step running, or the last one that ran.
    pub pos: usize,
    pub phase: Phase,
}

impl Workflow {
    pub open spec fn wf(&self) -> bool {
        &&& self.steps@ == plan(self.command)
        &&& (self.phase == Phase::Running || self.phase == Phase::Checking) ==> self.pos
            < self.steps@.len()
        &&& self.phase == Phase::Checking ==> self.pos + 1 < self.steps@.len()
    }

    /// A workflow for `command` that has not started.
    pub fn new(command: Command) -> (r: Workflow)
        ensures
            r.wf(),
            r.command == command,
            r.pos == 0,
            r.phase == Phase::Ready,
    {
        let steps = match command {
            Command::Monitor => vec![WorkStep::PollIndexer],
            Command::Vonitor => vec![WorkStep::PollVisIndexer],
            Command::Konitor => vec![
                WorkStep::PollIndexer,
                WorkStep::PollVisIndexer,
                WorkStep::StopInstance,
            ],
            Command::Kronitor => vec![
                WorkStep::PollIndexer,
                WorkStep::PollVisIndexer,
                WorkStep::StopInstance,
                WorkStep::Pause,
                WorkStep::ResizeInstance,
            ],
        };
        proof {
            assert(steps@ =~= plan(command));
        }
        Workflow { command, steps, pos: 0, phase: Phase::Ready }
    }

    /// Whether the workflow takes `ev` now.
    pub fn accepts(&self, ev: WorkflowEvent) -> (r: bool)
        ensures
            r == takes(self.phase, ev),
    {
        match ev {
            WorkflowEvent::Begin => self.phase == Phase::Ready,
            WorkflowEvent::StepFinished(_) => self.phase == Phase::Running,
            WorkflowEvent::StopChecked(_) => self.phase == Phase::Checking,
        }
    }

    /// Takes one event and says what to do next.
    pub fn step(&mut self, ev: WorkflowEvent) -> (r: WorkflowAction)
        requires
            old(self).wf(),
            takes(old(self).phase, ev),
        ensures
            final(self).wf(),
            final(self).command == old(self).command,
            (final(self).phase == Phase::Finished) <==> (r is Finish),
            match ev {
                WorkflowEvent::Begin => {
                    &&& r == WorkflowAction::Run(plan(old(self).command)[0])
                    &&& final(self).pos == 0
                    &&& final(self).phase == Phase::Running
                },
                WorkflowEvent::StepFinished(ok) => {
                    let s = plan(old(self).command)[old(self).pos as int];
                    &&& final(self).pos == old(self).pos
                    &&& if !ok && ends_on_failure(s) {
                        r == WorkflowAction::Finish(WorkflowEnd::Failed)
                    } else if old(self).pos + 1 == plan(old(self).command).len() {
                        r == WorkflowAction::Finish(WorkflowEnd::Completed)
                    } else {
                        r == WorkflowAction::CheckStop && final(self).phase == Phase::Checking
                    }
                },
                WorkflowEvent::StopChecked(stop) => if stop {
                    r == WorkflowAction::Finish(WorkflowEnd::Cancelled)
                } else {
                    &&& final(self).pos == old(self).pos + 1
                    &&& r == WorkflowAction::Run(plan(old(self).command)[final(self).pos as int])
                    &&& final(self).phase == Phase::Running
                },
            },
    {
        match ev {
            WorkflowEvent::Begin => {
                self.pos = 0;
                self.phase = Phase::Running;
                WorkflowAction::Run(self.steps[0])
            },
            WorkflowEvent::StepFinished(ok) => {
                let s = self.steps[self.pos];
                let poll = s == WorkStep::PollIndexer || s == WorkStep::PollVisIndexer;
                if !ok && poll {
                    self.phase = Phase::Finished;
                    WorkflowAction::Finish(WorkflowEnd::Failed)
                } else if self.pos + 1 == self.steps.len() {
                    self.phase = Phase::Finished;
                    WorkflowAction::Finish(WorkflowEnd::Completed)
                } else {
                    self.phase = Phase::Checking;
                    WorkflowAction::CheckStop
                }
            },
            WorkflowEvent::StopChecked(stop) => {
                if stop {
                    self.phase = Phase::Finished;
                    WorkflowAction::Finish(WorkflowEnd::Cancelled)
                } else {
                    self.pos = self.pos + 1;
                    self.phase = Phase::Running;
                    WorkflowAction::Run(self.steps[self.pos])
                }
            },
        }
    }
}

} // verus!
