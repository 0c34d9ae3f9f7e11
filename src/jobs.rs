//! The job supervisor: the single control point that hands out job ids,
//! keeps the registry of running jobs, flags jobs for cancellation, and
//! reclaims jobs once they report completion.
//!
//! A job runs elsewhere with a `JobTicket`: it reads its cancel flag through
//! the ticket and reports completion by consuming it.
use vstd::prelude::*;
use std::sync::Arc;
use std::sync::atomic::{AtomicBool, Ordering};
use crossbeam_channel::{Receiver, Sender};

verus! {

#[verifier::external_type_specification]
#[verifier::external_body]
#[verifier::reject_recursive_types(T)]
pub struct ExSender<T>(Sender<T>);

#[verifier::external_type_specification]
#[verifier::external_body]
#[verifier::reject_recursive_types(T)]
pub struct ExReceiver<T>(Receiver<T>);

/// Relies on crossbeam_channel::unbounded: a new channel, its sending and
/// its receiving end.
#[verifier::external_body]
fn open_channel() -> (Sender<u64>, Receiver<u64>) {
    crossbeam_channel::unbounded()
}

/// Relies on crossbeam_channel::Sender::clone: another sending end of the
/// same channel.
#[verifier::external_body]
fn clone_sender(tx: &Sender<u64>) -> Sender<u64> {
    tx.clone()
}

/// Relies on crossbeam_channel::Sender::send: queues `id`; on the unbounded
/// channels of this crate it does not block. False when no receiver is
/// left. It does not panic: its one panic is for a timeout, and no deadline
/// is given.
#[verifier::external_body]
fn send_id(tx: &Sender<u64>, id: u64) -> bool
    opens_invariants none
    no_unwind
{
    tx.send(id).is_ok()
}

/// Relies on crossbeam_channel::Receiver::try_iter: the messages queued
/// now, in order, without waiting for more.
#[verifier::external_body]
fn drain_ids(rx: &Receiver<u64>) -> Vec<u64> {
    rx.try_iter().collect()
}

/// Relies on Arc::clone: another owner of the same flag.
#[verifier::external_body]
fn share_flag(flag: &Arc<AtomicBool>) -> Arc<AtomicBool> {
    Arc::clone(flag)
}

/// The first id handed out.
pub const FIRST_JOB_ID: u64 = 1000;

/// What the registry knows of one job.
pub struct JobView {
    pub id: u64,
    pub text: Seq<char>,
    pub cancelled: bool,
}

/// One running job, as the registry holds it.
pub struct Job {
    pub id: u64,
    /// The command text that started the job.
    pub origin_text: String,
    /// Whether cancellation was asked for.
    pub cancelled: bool,
    flag: Arc<AtomicBool>,
}

impl Job {
    pub closed spec fn view_of(self) -> JobView {
        JobView { id: self.id, text: self.origin_text@, cancelled: self.cancelled }
    }
}

/// Whether a job with `id` is in `v`.
pub open spec fn has_id(v: Seq<JobView>, id: u64) -> bool {
    exists|i: int| 0 <= i < v.len() && (#[trigger] v[i]).id == id
}

/// No two jobs of `v` share an id.
pub open spec fn ids_unique(v: Seq<JobView>) -> bool {
    forall|i: int, k: int| 0 <= i < v.len() && 0 <= k < v.len() && i != k ==> (#[trigger] v[i]).id
        != (#[trigger] v[k]).id
}

/// `v` with the job of id `id`, if any, flagged as cancelled.
pub open spec fn mark_cancelled(v: Seq<JobView>, id: u64) -> Seq<JobView> {
    Seq::new(
        v.len(),
        |i: int|
            if v[i].id == id {
                JobView { id: v[i].id, text: v[i].text, cancelled: true }
            } else {
                v[i]
            },
    )
}

/// `v` without the jobs whose ids are in `ids`, in the same order.
pub open spec fn without_ids(v: Seq<JobView>, ids: Seq<u64>) -> Seq<JobView>
    decreases v.len(),
{
    if v.len() == 0 {
        Seq::empty()
    } else if ids.contains(v.last().id) {
        without_ids(v.drop_last(), ids)
    } else {
        without_ids(v.drop_last(), ids).push(v.last())
    }
}

/// What a running job holds: its id, a read-only view of its cancel flag,
/// and the way to report that it has finished.
pub struct JobTicket {
    id: u64,
    flag: Arc<AtomicBool>,
    done: Sender<u64>,
}

impl JobTicket {
    /// The id of the job that holds the ticket.
    pub closed spec fn id_spec(&self) -> u64 {
        self.id
    }

    pub fn id(&self) -> (r: u64)
        ensures
            r == self.id_spec(),
    {
        self.id
    }

    /// Whether cancellation has been asked for. The flag is set by another
    /// thread, so nothing is known of the answer beforehand.
    pub fn should_stop(&self) -> bool {
        self.flag.load(Ordering::Relaxed)
    }

    /// The message that reports this job's completion: its id.
    pub fn done_message(&self) -> (r: u64)
        ensures
            r == self.id_spec(),
        opens_invariants none
        no_unwind
    {
        self.id
    }

    /// Reports that the job has finished, by sending `done_message` to the
    /// supervisor. The ticket is consumed, so this happens at most once.
    /// False when the supervisor is gone.
    pub fn complete(self) -> bool
        opens_invariants none
        no_unwind
    {
        let message = self.done_message();
        send_id(&self.done, message)
    }
}

/// Holds a running job's ticket and reports the job's completion when it is
/// dropped, so that every way out of the job reports it, and only once.
pub struct CompletionGuard {
    ticket: Option<JobTicket>,
}

impl CompletionGuard {
    pub fn new(ticket: JobTicket) -> (r: CompletionGuard)
        ensures
            r.ticket_spec() == Some(ticket),
    {
        CompletionGuard { ticket: Some(ticket) }
    }

    pub closed spec fn ticket_spec(&self) -> Option<JobTicket> {
        self.ticket
    }

    /// Whether cancellation has been asked for; true once the job has
    /// reported completion.
    pub fn should_stop(&self) -> (r: bool)
        ensures
            self.ticket_spec() is None ==> r,
    {
        match &self.ticket {
            Some(t) => t.should_stop(),
            None => true,
        }
    }

    /// Reports completion now, if it was not reported yet, and returns the
    /// id handed to the supervisor; None when it was already reported.
    pub fn complete(&mut self) -> (sent: Option<u64>)
        ensures
            old(self).ticket_spec() matches Some(t) ==> sent == Some(t.id_spec()),
            old(self).ticket_spec() is None ==> sent is None,
            final(self).ticket_spec() is None,
        opens_invariants none
        no_unwind
    {
        let mut taken: Option<JobTicket> = None;
        std::mem::swap(&mut taken, &mut self.ticket);
        match taken {
            Some(t) => {
                let id = t.done_message();
                t.complete();
                Some(id)
            },
            None => None,
        }
    }
}

impl Drop for CompletionGuard {
    fn drop(&mut self)
        opens_invariants none
        no_unwind
    {
        self.complete();
    }
}

/// The single control point over running jobs.
pub struct JobSupervisor {
    jobs: Vec<Job>,
    next_id: u64,
    done_tx: Sender<u64>,
    done_rx: Receiver<u64>,
}

/// What the registry knows of each of `jobs`.
pub open spec fn views(jobs: Seq<Job>) -> Seq<JobView> {
    jobs.map_values(|j: Job| j.view_of())
}

impl View for JobSupervisor {
    type V = Seq<JobView>;

    closed spec fn view(&self) -> Seq<JobView> {
        views(self.jobs@)
    }
}

impl JobSupervisor {
    /// The id that the next job will get.
    pub closed spec fn next_id_spec(&self) -> u64 {
        self.next_id
    }

    /// Ids are unique, each below the next one to hand out.
    pub open spec fn wf(&self) -> bool {
        &&& ids_unique(self@)
        &&& forall|i: int| 0 <= i < self@.len() ==> (#[trigger] self@[i]).id < self.next_id_spec()
        &&& self.next_id_spec() >= FIRST_JOB_ID
    }

    /// A supervisor with no jobs.
    pub fn new() -> (r: JobSupervisor)
        ensures
            r.wf(),
            r@ == Seq::<JobView>::empty(),
            r.next_id_spec() == FIRST_JOB_ID,
    {
        let (done_tx, done_rx) = open_channel();
        let r = JobSupervisor { jobs: Vec::new(), next_id: FIRST_JOB_ID, done_tx, done_rx };
        proof {
            assert(r@ =~= Seq::<JobView>::empty());
        }
        r
    }

    /// Hands out a fresh id: each id once, in increasing order. None once
    /// the ids are used up.
    pub fn get_worker_id(&mut self) -> (r: Option<u64>)
        requires
            old(self).wf(),
        ensures
            final(self).wf(),
            final(self)@ == old(self)@,
            old(self).next_id_spec() < u64::MAX ==> r == Some(old(self).next_id_spec())
                && final(self).next_id_spec() == old(self).next_id_spec() + 1,
            old(self).next_id_spec() == u64::MAX ==> r is None && final(self).next_id_spec()
                == old(self).next_id_spec(),
    {
        if self.next_id == u64::MAX {
            return None;
        }
        let id = self.next_id;
        self.next_id = self.next_id + 1;
        Some(id)
    }

    /// Registers a job for `origin_text`, with a fresh id and a cancel flag
    /// that is not set, and returns the ticket that the job runs with.
    pub fn submit(&mut self, origin_text: String) -> (r: Option<JobTicket>)
        requires
            old(self).wf(),
        ensures
            final(self).wf(),
            match r {
                Some(t) => {
                    &&& t.id_spec() == old(self).next_id_spec()
                    &&& !has_id(old(self)@, t.id_spec())
                    &&& final(self)@ == old(self)@.push(
                        JobView { id: t.id_spec(), text: origin_text@, cancelled: false },
                    )
                    &&& final(self).next_id_spec() == old(self).next_id_spec() + 1
                },
                None => old(self).next_id_spec() == u64::MAX && final(self)@ == old(self)@,
            },
    {
        let id = match self.get_worker_id() {
            Some(id) => id,
            None => return None,
        };
        let flag = Arc::new(AtomicBool::new(false));
        let ticket = JobTicket { id, flag: share_flag(&flag), done: clone_sender(&self.done_tx) };
        let job = Job { id, origin_text, cancelled: false, flag };
        let ghost before = self@;
        self.jobs.push(job);
        proof {
            assert(self@ =~= before.push(JobView { id, text: origin_text@, cancelled: false }));
        }
        Some(ticket)
    }

    /// Whether a job with `id` is registered.
    pub fn contains(&self, id: u64) -> (r: bool)
        ensures
            r == has_id(self@, id),
    {
        let mut i: usize = 0;
        while i < self.jobs.len()
            invariant
                i <= self.jobs.len(),
                forall|k: int| 0 <= k < i ==> (#[trigger] self@[k]).id != id,
            decreases self.jobs.len() - i,
        {
            if self.jobs[i].id == id {
                assert(self@[i as int].id == id);
                return true;
            }
            i += 1;
        }
        false
    }

    /// Asks the job `id` to stop: sets its cancel flag and returns true if it
    /// is registered; returns false and changes nothing if it is not. The job
    /// stays registered until it reports completion.
    pub fn cancel(&mut self, id: u64) -> (r: bool)
        requires
            old(self).wf(),
        ensures
            final(self).wf(),
            r == has_id(old(self)@, id),
            final(self)@ == mark_cancelled(old(self)@, id),
            final(self).next_id_spec() == old(self).next_id_spec(),
    {
        let ghost before = self@;
        let mut i: usize = 0;
        while i < self.jobs.len()
            invariant
                self.wf(),
                old(self).wf(),
                self.next_id_spec() == old(self).next_id_spec(),
                before == old(self)@,
                i <= self.jobs.len(),
                self@.len() == before.len(),
                forall|k: int| 0 <= k < i ==> (#[trigger] before[k]).id != id,
                forall|k: int| 0 <= k < self@.len() ==> (#[trigger] self@[k]) == before[k],
            decreases self.jobs.len() - i,
        {
            if self.jobs[i].id == id {
                let ghost jobs_before = self.jobs@;
                proof {
                    assert(self@[i as int] == jobs_before[i as int].view_of());
                }
                let mut job = self.jobs.remove(i);
                job.flag.store(true, Ordering::Relaxed);
                job.cancelled = true;
                self.jobs.insert(i, job);
                proof {
                    assert(before[i as int].id == id);
                    assert forall|k: int| 0 <= k < self@.len() implies #[trigger] self@[k]
                        == mark_cancelled(before, id)[k] by {
                        assert(self@[k] == self.jobs@[k].view_of());
                        if k != i {
                            assert(self.jobs@[k] == jobs_before[k]);
                            assert(views(jobs_before)[k] == jobs_before[k].view_of());
                            assert(before[k].id != id);
                        }
                    }
                    assert(self@ =~= mark_cancelled(before, id));
                    assert forall|k: int| 0 <= k < self@.len() implies (#[trigger] self@[k]).id
                        == before[k].id && before[k].id < self.next_id_spec() by {
                        assert(old(self)@[k] == before[k]);
                        assert(self@[k] == mark_cancelled(before, id)[k]);
                    }
                    assert(ids_unique(self@)) by {
                        assert forall|a: int, b: int|
                            0 <= a < self@.len() && 0 <= b < self@.len() && a != b implies (
                            #[trigger] self@[a]).id != (#[trigger] self@[b]).id by {
                            assert(self@[a] == mark_cancelled(before, id)[a]);
                            assert(self@[b] == mark_cancelled(before, id)[b]);
                        }
                    }
                }
                return true;
            }
            proof {
                assert(self@[i as int] == self.jobs@[i as int].view_of());
            }
            i += 1;
        }
        proof {
            assert(self@ =~= mark_cancelled(before, id));
        }
        false
    }

    /// The id and command text of each registered job.
    pub fn list(&self) -> (r: Vec<(u64, String)>)
        ensures
            r@.len() == self@.len(),
            forall|i: int|
                0 <= i < r@.len() ==> (#[trigger] r@[i]).0 == self@[i].id && r@[i].1@
                    == self@[i].text,
    {
        let mut r: Vec<(u64, String)> = Vec::new();
        let mut i: usize = 0;
        while i < self.jobs.len()
            invariant
                i <= self.jobs.len(),
                r@.len() == i,
                forall|k: int|
                    0 <= k < i ==> (#[trigger] r@[k]).0 == self@[k].id && r@[k].1@ == self@[k].text,
            decreases self.jobs.len() - i,
        {
            let job = &self.jobs[i];
            r.push((job.id, job.origin_text.clone()));
            i += 1;
        }
        r
    }

    /// Removes every job whose id is in `ids`, keeping the others in order.
    pub fn remove_completed(&mut self, ids: &Vec<u64>)
        requires
            old(self).wf(),
        ensures
            final(self).wf(),
            final(self)@ == without_ids(old(self)@, ids@),
            final(self).next_id_spec() == old(self).next_id_spec(),
    {
        let ghost orig = self.jobs@;
        let mut rest: Vec<Job> = Vec::new();
        std::mem::swap(&mut rest, &mut self.jobs);
        let mut kept: Vec<Job> = Vec::new();
        let ghost mut i: int = 0;
        while rest.len() > 0
            invariant
                0 <= i <= orig.len(),
                rest@ == orig.skip(i),
                views(kept@) == without_ids(views(orig.take(i)), ids@),
            decreases rest.len(),
        {
            let job = rest.remove(0);
            proof {
                assert(orig.take(i + 1) =~= orig.take(i).push(orig[i]));
                assert(views(orig.take(i + 1)) =~= views(orig.take(i)).push(orig[i].view_of()));
                assert(views(orig.take(i + 1)).drop_last() =~= views(orig.take(i)));
                assert(rest@ =~= orig.skip(i + 1));
            }
            let ghost kept_before = kept@;
            if !contains_u64(ids, job.id) {
                kept.push(job);
                proof {
                    assert(views(kept@) =~= views(kept_before).push(orig[i].view_of()));
                }
            }
            proof {
                i = i + 1;
            }
        }
        proof {
            assert(orig.take(i) =~= orig);
            lemma_without_ids_keeps(views(orig), ids@);
        }
        self.jobs = kept;
    }

    /// Takes the completions that jobs have reported so far and removes
    /// those jobs; returns the ids taken. Afterwards the registry holds
    /// exactly the jobs whose completion has not been taken.
    pub fn reap(&mut self) -> (r: Vec<u64>)
        requires
            old(self).wf(),
        ensures
            final(self).wf(),
            final(self)@ == without_ids(old(self)@, r@),
            final(self).next_id_spec() == old(self).next_id_spec(),
    {
        let ids = drain_ids(&self.done_rx);
        self.remove_completed(&ids);
        ids
    }
}

/// Asking twice for a job to stop does what asking once does: the registry
/// ends the same, and the second request finds the job exactly when the
/// first one did.
pub proof fn lemma_cancel_idempotent(v: Seq<JobView>, id: u64)
    ensures
        mark_cancelled(mark_cancelled(v, id), id) == mark_cancelled(v, id),
        has_id(mark_cancelled(v, id), id) == has_id(v, id),
{
    let once = mark_cancelled(v, id);
    assert(mark_cancelled(once, id) =~= once);
    if has_id(v, id) {
        let i = choose|i: int| 0 <= i < v.len() && (#[trigger] v[i]).id == id;
        assert(once[i].id == id);
    }
    if has_id(once, id) {
        let i = choose|i: int| 0 <= i < once.len() && (#[trigger] once[i]).id == id;
        assert(v[i].id == id);
    }
}

/// After completions are taken, a job is still registered exactly when it
/// was registered before and its completion was not among those taken.
pub proof fn lemma_reap_leaves_undrained(v: Seq<JobView>, drained: Seq<u64>, j: JobView)
    ensures
        without_ids(v, drained).contains(j) <==> v.contains(j) && !drained.contains(j.id),
{
    lemma_without_ids_keeps(v, drained);
    let w = without_ids(v, drained);
    if w.contains(j) {
        let k = choose|k: int| 0 <= k < w.len() && w[k] == j;
        assert(v.contains(w[k]));
    }
    if v.contains(j) && !drained.contains(j.id) {
        let k = choose|k: int| 0 <= k < v.len() && v[k] == j;
        assert(!drained.contains(v[k].id));
    }
}

/// Whether `id` is in `ids`.
fn contains_u64(ids: &Vec<u64>, id: u64) -> (r: bool)
    ensures
        r == ids@.contains(id),
{
    let mut i: usize = 0;
    while i < ids.len()
        invariant
            i <= ids.len(),
            forall|k: int| 0 <= k < i ==> ids@[k] != id,
        decreases ids.len() - i,
    {
        if ids[i] == id {
            assert(ids@[i as int] == id);
            return true;
        }
        i += 1;
    }
    false
}

/// Removing jobs keeps only jobs of `v`, none with an id in `ids`, and keeps
/// ids unique.
pub proof fn lemma_without_ids_keeps(v: Seq<JobView>, ids: Seq<u64>)
    ensures
        forall|k: int|
            0 <= k < without_ids(v, ids).len() ==> v.contains(#[trigger] without_ids(v, ids)[k])
                && !ids.contains(without_ids(v, ids)[k].id),
        ids_unique(v) ==> ids_unique(without_ids(v, ids)),
        forall|k: int|
            0 <= k < v.len() && !ids.contains(#[trigger] v[k].id) ==> without_ids(
                v,
                ids,
            ).contains(v[k]),
    decreases v.len(),
{
    if v.len() > 0 {
        let p = v.drop_last();
        lemma_without_ids_keeps(p, ids);
        let w = without_ids(p, ids);
        assert forall|k: int| 0 <= k < v.len() && !ids.contains(#[trigger] v[k].id) implies without_ids(
            v,
            ids,
        ).contains(v[k]) by {
            if k < v.len() - 1 {
                assert(p[k] == v[k]);
                let m = choose|m: int| 0 <= m < w.len() && w[m] == p[k];
                if !ids.contains(v.last().id) {
                    assert(without_ids(v, ids)[m] == w[m]);
                }
            } else {
                assert(without_ids(v, ids)[w.len() as int] == v[k]);
            }
        }
        assert forall|k: int| 0 <= k < w.len() implies v.contains(#[trigger] w[k]) by {
            let m = choose|m: int| 0 <= m < p.len() && p[m] == w[k];
            assert(v[m] == w[k]);
        }
        if ids_unique(v) {
            assert(ids_unique(p)) by {
                assert forall|a: int, b: int|
                    0 <= a < p.len() && 0 <= b < p.len() && a != b implies (#[trigger] p[a]).id
                    != (#[trigger] p[b]).id by {
                    assert(p[a] == v[a] && p[b] == v[b]);
                }
            }
            if !ids.contains(v.last().id) {
                assert forall|k: int| 0 <= k < w.len() implies (#[trigger] w[k]).id
                    != v.last().id by {
                    let m = choose|m: int| 0 <= m < p.len() && p[m] == w[k];
                    assert(v[m] == w[k]);
                    assert(v[v.len() - 1] == v.last());
                }
            }
        }
    }
}

} // verus!
