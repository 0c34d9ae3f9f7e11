//! The polling engine: repeated status queries with a hysteresis counter,
//! cooperative cancellation between queries, and a fast abort on a failed
//! query.
//!
//! The engine makes no call itself. Its driver feeds it events and carries
//! out the actions it returns: check the cancel flag, query the status
//! source, sleep for one interval, or finish.
use vstd::prelude::*;

verus! {

/// What one successful query reported.
#[derive(Clone, Copy, PartialEq, Eq, Debug, Structural)]
pub enum Status {
    /// Work is going on: progress towards settling is lost.
    Busy,
    /// Nothing is going on: one more step towards settling.
    Settled,
    /// Any other report: progress is kept as it is.
    Other,
}

/// Where the engine stands.
#[derive(Clone, Copy, PartialEq, Eq, Debug, Structural)]
pub enum Stage {
    /// Created, not started yet.
    Starting,
    /// Waiting for the cancel flag, before a query.
    CheckBeforeQuery,
    /// Waiting for the result of a query.
    Querying,
    /// Waiting for the cancel flag, after a query that left it polling.
    CheckAfterQuery,
    /// Waiting for one interval to pass.
    Sleeping,
    /// Done, aborted or cancelled: nothing more happens.
    Finished,
}

/// What the driver tells the engine.
#[derive(Debug, PartialEq, Eq)]
pub enum Event {
    /// Start polling.
    Begin,
    /// The cancel flag was read, with this value.
    StopChecked(bool),
    /// A query came back: a status, or the reason it failed.
    Queried(Result<Status, String>),
    /// One interval has passed.
    Woke,
}

/// How a run ended.
#[derive(Debug, PartialEq, Eq)]
pub enum Outcome {
    /// Enough consecutive settled reports were seen.
    Done,
    /// A query failed, for this reason.
    Aborted(String),
    /// The cancel flag was found set.
    Cancelled,
}

/// What the engine asks the driver to do next.
#[derive(Debug, PartialEq, Eq)]
pub enum Action {
    /// Read the cancel flag and report it with `Event::StopChecked`.
    CheckStop,
    /// Query the status source and report it with `Event::Queried`.
    Query,
    /// Sleep one interval and report `Event::Woke`.
    Sleep,
    /// Stop: the run ended so.
    Finish(Outcome),
}

/// The counter after one report.
pub open spec fn next_count(count: nat, status: Status) -> nat {
    match status {
        Status::Busy => 0,
        Status::Settled => count + 1,
        Status::Other => count,
    }
}

/// Whether a report ends the run, given the count before it.
pub open spec fn settles(count: nat, threshold: nat, status: Status) -> bool {
    status == Status::Settled && count + 1 >= threshold
}

/// Where a run stands after a sequence of reports.
pub enum Progress {
    Polling(nat),
    Settled,
}

/// The effect of the reports `obs`, in order, from a count of 0.
pub open spec fn progress(threshold: nat, obs: Seq<Status>) -> Progress
    decreases obs.len(),
{
    if obs.len() == 0 {
        Progress::Polling(0)
    } else {
        match progress(threshold, obs.drop_last()) {
            Progress::Settled => Progress::Settled,
            Progress::Polling(c) => if settles(c, threshold, obs.last()) {
                Progress::Settled
            } else {
                Progress::Polling(next_count(c, obs.last()))
            },
        }
    }
}

/// The number of settled reports at the end of `obs` since its last busy
/// one; other reports neither count nor break the streak.
pub open spec fn streak(obs: Seq<Status>) -> nat
    decreases obs.len(),
{
    if obs.len() == 0 {
        0
    } else {
        match obs.last() {
            Status::Busy => 0,
            Status::Settled => streak(obs.drop_last()) + 1,
            Status::Other => streak(obs.drop_last()),
        }
    }
}

/// A run settles exactly when, for the first time, the reports end in
/// `threshold` settled ones with no busy one between them; until then the
/// counter is that streak, and stays below `threshold`. So one busy report
/// anywhere, even just before the last settled one that was needed, makes
/// the run start counting from zero again.
pub proof fn lemma_settles_exactly_at_threshold(threshold: nat, obs: Seq<Status>)
    requires
        threshold >= 1,
    ensures
        progress(threshold, obs) is Settled <==> exists|n: int|
            1 <= n <= obs.len() && streak(#[trigger] obs.take(n)) >= threshold,
        progress(threshold, obs) matches Progress::Polling(c) ==> c == streak(obs) && c
            < threshold,
    decreases obs.len(),
{
    if obs.len() == 0 {
        assert forall|n: int| 1 <= n <= obs.len() implies streak(#[trigger] obs.take(n))
            < threshold by {}
    } else {
        let p = obs.drop_last();
        let x = obs.last();
        lemma_settles_exactly_at_threshold(threshold, p);
        assert(obs.take(obs.len() as int) =~= obs);
        assert forall|n: int| 1 <= n <= p.len() implies #[trigger] obs.take(n) == p.take(n) by {
            assert(obs.take(n) =~= p.take(n));
        }
        match progress(threshold, p) {
            Progress::Settled => {
                let n = choose|n: int| 1 <= n <= p.len() && streak(#[trigger] p.take(n)) >= threshold;
                assert(obs.take(n) == p.take(n));
            },
            Progress::Polling(c) => {
                if settles(c, threshold, x) {
                    assert(streak(obs.take(obs.len() as int)) >= threshold);
                } else {
                    assert forall|n: int| 1 <= n <= obs.len() implies streak(
                        #[trigger] obs.take(n),
                    ) < threshold by {
                        if n <= p.len() {
                            assert(obs.take(n) == p.take(n));
                        }
                    }
                }
            },
        }
    }
}

/// Which events the engine takes in a stage.
pub open spec fn expects(stage: Stage, ev: Event) -> bool {
    match ev {
        Event::Begin => stage == Stage::Starting,
        Event::StopChecked(_) => stage == Stage::CheckBeforeQuery || stage
            == Stage::CheckAfterQuery,
        Event::Queried(_) => stage == Stage::Querying,
        Event::Woke => stage == Stage::Sleeping,
    }
}

/// A run that has ended takes no further event: after a failed query, or
/// any other end, the engine never asks for another query.
pub proof fn lemma_finished_takes_no_event(ev: Event)
    ensures
        !expects(Stage::Finished, ev),
{
}

/// The polling state machine.
pub struct PollingEngine {
    /// How many consecutive settled reports end the run.
    pub threshold: usize,
    /// Settled reports seen since the last busy one.
    pub stable_count: usize,
    pub stage: Stage,
    /// Every successful report so far, in order.
    pub readings: Ghost<Seq<Status>>,
}

impl PollingEngine {
    /// The engine's invariant: the counter is the progress of the reports so
    /// far, and stays below the threshold while polling.
    pub open spec fn wf(&self) -> bool {
        &&& self.stage != Stage::Finished ==> progress(self.threshold as nat, self.readings@)
            == Progress::Polling(self.stable_count as nat)
        &&& self.stage != Stage::Finished ==> (self.stable_count < self.threshold
            || self.stable_count == 0)
        &&& self.stage == Stage::Starting ==> self.readings@.len() == 0
    }

    /// An engine that has not started, with the given stability window.
    pub fn new(threshold: usize) -> (r: PollingEngine)
        ensures
            r.wf(),
            r.threshold == threshold,
            r.stable_count == 0,
            r.stage == Stage::Starting,
            r.readings@ == Seq::<Status>::empty(),
    {
        PollingEngine {
            threshold,
            stable_count: 0,
            stage: Stage::Starting,
            readings: Ghost(Seq::empty()),
        }
    }

    /// Whether the engine takes `ev` now.
    pub fn accepts(&self, ev: &Event) -> (r: bool)
        ensures
            r == expects(self.stage, *ev),
    {
        match ev {
            Event::Begin => self.stage == Stage::Starting,
            Event::StopChecked(_) => self.stage == Stage::CheckBeforeQuery || self.stage
                == Stage::CheckAfterQuery,
            Event::Queried(_) => self.stage == Stage::Querying,
            Event::Woke => self.stage == Stage::Sleeping,
        }
    }

    /// Whether the run has ended.
    pub fn is_finished(&self) -> (r: bool)
        ensures
            r == (self.stage == Stage::Finished),
    {
        self.stage == Stage::Finished
    }

    /// Takes one event and says what to do next.
    pub fn step(&mut self, ev: Event) -> (r: Action)
        requires
            old(self).wf(),
            expects(old(self).stage, ev),
        ensures
            final(self).wf(),
            final(self).threshold == old(self).threshold,
            (final(self).stage == Stage::Finished) <==> (r is Finish),
            match ev {
                Event::Begin => {
                    &&& r == Action::CheckStop
                    &&& final(self).stage == Stage::CheckBeforeQuery
                    &&& final(self).stable_count == old(self).stable_count
                    &&& final(self).readings@ == old(self).readings@
                },
                Event::StopChecked(true) => r == Action::Finish(Outcome::Cancelled),
                Event::StopChecked(false) => {
                    &&& final(self).stable_count == old(self).stable_count
                    &&& final(self).readings@ == old(self).readings@
                    &&& if old(self).stage == Stage::CheckBeforeQuery {
                        r == Action::Query && final(self).stage == Stage::Querying
                    } else {
                        r == Action::Sleep && final(self).stage == Stage::Sleeping
                    }
                },
                Event::Queried(Err(reason)) => r == Action::Finish(Outcome::Aborted(reason)),
                Event::Queried(Ok(status)) => {
                    &&& final(self).readings@ == old(self).readings@.push(status)
                    &&& if settles(
                        old(self).stable_count as nat,
                        old(self).threshold as nat,
                        status,
                    ) {
                        r == Action::Finish(Outcome::Done)
                    } else {
                        &&& r == Action::CheckStop
                        &&& final(self).stage == Stage::CheckAfterQuery
                        &&& final(self).stable_count == next_count(
                            old(self).stable_count as nat,
                            status,
                        )
                    }
                    &&& (r == Action::Finish(Outcome::Done)) <==> progress(
                        old(self).threshold as nat,
                        final(self).readings@,
                    ) is Settled
                },
                Event::Woke => {
                    &&& r == Action::CheckStop
                    &&& final(self).stage == Stage::CheckBeforeQuery
                    &&& final(self).stable_count == old(self).stable_count
                    &&& final(self).readings@ == old(self).readings@
                },
            },
    {
        match ev {
            Event::Begin => {
                self.stage = Stage::CheckBeforeQuery;
                Action::CheckStop
            },
            Event::StopChecked(stop) => {
                if stop {
                    self.stage = Stage::Finished;
                    Action::Finish(Outcome::Cancelled)
                } else if self.stage == Stage::CheckBeforeQuery {
                    self.stage = Stage::Querying;
                    Action::Query
                } else {
                    self.stage = Stage::Sleeping;
                    Action::Sleep
                }
            },
            Event::Queried(Err(reason)) => {
                self.stage = Stage::Finished;
                Action::Finish(Outcome::Aborted(reason))
            },
            Event::Queried(Ok(status)) => {
                let ghost before = self.readings@;
                self.readings = Ghost(before.push(status));
                proof {
                    assert(self.readings@.drop_last() =~= before);
                }
                match status {
                    Status::Busy => {
                        self.stable_count = 0;
                        self.stage = Stage::CheckAfterQuery;
                        Action::CheckStop
                    },
                    Status::Settled => {
                        if self.stable_count >= self.threshold || self.stable_count + 1
                            >= self.threshold {
                            self.stage = Stage::Finished;
                            Action::Finish(Outcome::Done)
                        } else {
                            self.stable_count = self.stable_count + 1;
                            self.stage = Stage::CheckAfterQuery;
                            Action::CheckStop
                        }
                    },
                    Status::Other => {
                        self.stage = Stage::CheckAfterQuery;
                        Action::CheckStop
                    },
                }
            },
            Event::Woke => {
                self.stage = Stage::CheckBeforeQuery;
                Action::CheckStop
            },
        }
    }
}

} // verus!
