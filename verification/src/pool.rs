//! The coordination core of a fixed-size worker pool.
//!
//! A pool owns a fixed set of workers and an unbounded FIFO queue of jobs.
//! Callers submit jobs; each worker repeatedly claims the job at the front
//! of the queue and runs it; shutdown closes the queue, after which workers
//! drain what remains and terminate.
//!
//! Jobs are opaque units of work: the model identifies each one by a plain
//! integer tag chosen by the submitter. The pool records three logs — the
//! jobs submitted, the jobs delivered to workers, and the jobs whose
//! execution finished — and its well-formedness invariant ties them
//! together: delivery happens in submission order, and every delivered job
//! is either finished or still in flight on exactly one worker. From that
//! invariant the drain laws follow: once every worker has terminated, the
//! finished log is exactly the submitted log, with no loss and no
//! duplication.
//!
//! An embedding that runs real threads performs the blocking operations
//! (receive, join) itself and reports each event to this model: `claim`
//! when a worker asks for work, `finish` when a job's execution returns.

use vstd::multiset::Multiset;
use vstd::prelude::*;

verus! {

/// The errors of the pool's interface.
///
/// `WorkerJoinFailure` is reported by an embedding whose attempt to join a
/// worker thread during shutdown fails because that thread terminated
/// abnormally; the model itself never produces it.
#[derive(Clone, Copy, Debug, PartialEq, Eq, Structural)]
pub enum PoolError {
    /// The requested worker count was zero.
    InvalidConfiguration,
    /// A submission arrived after shutdown had begun.
    PoolClosed,
    /// A worker thread could not be joined during shutdown.
    WorkerJoinFailure,
}

/// What a single worker is doing.
#[derive(Clone, Copy, Debug, PartialEq, Eq, Structural)]
pub enum WorkerPhase {
    /// Waiting to claim the next job.
    Running,
    /// Executing the job with this tag.
    Executing(u64),
    /// Exited: the worker observed the queue closed and empty.
    Terminated,
}

/// What a claim attempt tells the worker to do next.
#[derive(Clone, Copy, Debug, PartialEq, Eq, Structural)]
pub enum ClaimOutcome {
    /// Run this job, then report `finish`.
    Claimed(u64),
    /// The queue is empty but still open: block and try again.
    KeepWaiting,
    /// The queue is closed and empty: terminate.
    Exit,
}

/// The job a worker holds, as a multiset: empty unless it is executing.
pub open spec fn phase_load(w: WorkerPhase) -> Multiset<u64> {
    match w {
        WorkerPhase::Executing(j) => Multiset::empty().insert(j),
        _ => Multiset::empty(),
    }
}

/// The job a worker holds, as a sequence: empty unless it is executing.
pub open spec fn phase_jobs(w: WorkerPhase) -> Seq<u64> {
    match w {
        WorkerPhase::Executing(j) => seq![j],
        _ => Seq::empty(),
    }
}

/// All jobs currently being executed, over the whole worker set.
pub open spec fn in_flight(ws: Seq<WorkerPhase>) -> Multiset<u64>
    decreases ws.len(),
{
    if ws.len() == 0 {
        Multiset::empty()
    } else {
        phase_load(ws[0]).add(in_flight(ws.drop_first()))
    }
}

/// A worker set in which nobody is executing carries no jobs in flight.
proof fn lemma_in_flight_empty(ws: Seq<WorkerPhase>)
    requires
        forall|i: int| 0 <= i < ws.len() ==> !(ws[i] is Executing),
    ensures
        in_flight(ws) =~= Multiset::empty(),
    decreases ws.len(),
{
    if ws.len() > 0 {
        assert forall|i: int| 0 <= i < ws.drop_first().len() implies !(ws.drop_first()[i]
            is Executing) by {
            assert(ws.drop_first()[i] == ws[i + 1]);
        }
        lemma_in_flight_empty(ws.drop_first());
        assert(!(ws[0] is Executing));
    }
}

/// Replacing one worker's phase exchanges that worker's load and nothing
/// else: the jobs in flight before, plus the new phase's load, equal the
/// jobs in flight after, plus the old phase's load.
proof fn lemma_in_flight_update(ws: Seq<WorkerPhase>, i: int, ph: WorkerPhase)
    requires
        0 <= i < ws.len(),
    ensures
        in_flight(ws.update(i, ph)).add(phase_load(ws[i])) =~= in_flight(ws).add(phase_load(ph)),
    decreases ws.len(),
{
    let upd = ws.update(i, ph);
    if i == 0 {
        assert(upd[0] == ph);
        assert(upd.drop_first() =~= ws.drop_first());
        let rest = in_flight(ws.drop_first());
        assert(in_flight(upd) == phase_load(ph).add(rest));
        assert(in_flight(ws) == phase_load(ws[0]).add(rest));
        assert(in_flight(upd).add(phase_load(ws[0])) =~= in_flight(ws).add(phase_load(ph)));
    } else {
        assert(upd[0] == ws[0]);
        assert(upd.drop_first() =~= ws.drop_first().update(i - 1, ph));
        lemma_in_flight_update(ws.drop_first(), i - 1, ph);
        assert(ws.drop_first()[i - 1] == ws[i]);
        assert(in_flight(upd) == phase_load(ws[0]).add(in_flight(upd.drop_first())));
        assert(in_flight(ws) == phase_load(ws[0]).add(in_flight(ws.drop_first())));
        assert forall|x: u64|
            in_flight(upd).add(phase_load(ws[i])).count(x) == in_flight(ws).add(
                phase_load(ph),
            ).count(x) by {
            assert(in_flight(upd.drop_first()).add(phase_load(ws[i])).count(x) == in_flight(
                ws.drop_first(),
            ).add(phase_load(ph)).count(x));
        }
        assert(in_flight(upd).add(phase_load(ws[i])) =~= in_flight(ws).add(phase_load(ph)));
    }
}

/// A fixed-size worker pool, as the state machine its embedding drives.
pub struct ThreadPool {
    /// One entry per worker; the index is the worker's id.
    pub workers: Vec<WorkerPhase>,
    /// True until shutdown begins; closing the queue is the only
    /// termination signal the workers receive.
    pub accepting: bool,
    /// Pending jobs, front at index 0.
    pub queue: Vec<u64>,
    /// Every job ever accepted, in submission order.
    pub submitted: Vec<u64>,
    /// Every job handed to a worker, in claim order.
    pub delivered: Vec<u64>,
    /// Every job whose execution finished, in completion order.
    pub executed: Vec<u64>,
}

impl ThreadPool {
    /// Every worker has exited.
    pub open spec fn all_terminated(self) -> bool {
        forall|i: int|
            0 <= i < self.workers@.len() ==> self.workers@[i] is Terminated
    }

    /// The pool's invariant, established by `new` and preserved by every
    /// operation.
    pub open spec fn wf(self) -> bool {
        // the pool never has zero workers
        &&& self.workers@.len() >= 1
        // jobs are delivered in submission order; the queue holds the rest
        &&& self.submitted@ == self.delivered@ + self.queue@
        // every delivered job is finished or in flight on some worker
        &&& self.delivered@.to_multiset() == self.executed@.to_multiset().add(
            in_flight(self.workers@),
        )
        // a worker exits only after the queue has been closed
        &&& (forall|i: int|
            0 <= i < self.workers@.len() && self.workers@[i] is Terminated
                ==> !self.accepting)
        // the last worker exits only once the queue has drained
        &&& (self.all_terminated() ==> self.queue@.len() == 0)
        // a lone worker finishes jobs in the order they were delivered
        &&& (self.workers@.len() == 1 ==> self.delivered@ == self.executed@ + phase_jobs(
            self.workers@[0],
        ))
    }

    /// Create a pool with `size` workers, all idle, with an open, empty
    /// queue. A zero worker count is rejected: such a pool could never run
    /// anything.
    pub fn new(size: usize) -> (r: Result<ThreadPool, PoolError>)
        ensures
            size == 0 ==> (r matches Err(e) && e == PoolError::InvalidConfiguration),
            size > 0 ==> (r matches Ok(p) && {
                &&& p.wf()
                &&& p.workers@.len() == size
                &&& forall|i: int| 0 <= i < size ==> p.workers@[i] is Running
                &&& p.accepting
                &&& p.queue@ == Seq::<u64>::empty()
                &&& p.submitted@ == Seq::<u64>::empty()
                &&& p.delivered@ == Seq::<u64>::empty()
                &&& p.executed@ == Seq::<u64>::empty()
            }),
    {
        if size == 0 {
            return Err(PoolError::InvalidConfiguration);
        }
        let mut workers: Vec<WorkerPhase> = Vec::new();
        let mut i: usize = 0;
        while i < size
            invariant
                i <= size,
                workers@.len() == i as int,
                forall|k: int| 0 <= k < i ==> workers@[k] is Running,
            decreases size - i,
        {
            workers.push(WorkerPhase::Running);
            i += 1;
        }
        let pool = ThreadPool {
            workers,
            accepting: true,
            queue: Vec::new(),
            submitted: Vec::new(),
            delivered: Vec::new(),
            executed: Vec::new(),
        };
        proof {
            broadcast use vstd::seq_lib::group_to_multiset_ensures;

            lemma_in_flight_empty(pool.workers@);
            vstd::multiset::lemma_multiset_empty_len::<u64>(pool.delivered@.to_multiset());
            vstd::multiset::lemma_multiset_empty_len::<u64>(pool.executed@.to_multiset());
            assert(pool.submitted@ =~= pool.delivered@ + pool.queue@);
            assert(pool.delivered@.to_multiset() =~= pool.executed@.to_multiset().add(
                in_flight(pool.workers@),
            ));
            if pool.workers@.len() == 1 {
                assert(pool.delivered@ =~= pool.executed@ + phase_jobs(pool.workers@[0]));
            }
        }
        Ok(pool)
    }

    /// Submit a job: append it to the queue, unless shutdown has begun, in
    /// which case nothing is enqueued and the caller gets `PoolClosed`.
    pub fn execute(&mut self, job: u64) -> (r: Result<(), PoolError>)
        requires
            old(self).wf(),
        ensures
            final(self).wf(),
            !old(self).accepting ==> (r matches Err(e) && e == PoolError::PoolClosed
                && *final(self) == *old(self)),
            old(self).accepting ==> (r is Ok && {
                &&& final(self).queue@ == old(self).queue@.push(job)
                &&& final(self).submitted@ == old(self).submitted@.push(job)
                &&& final(self).workers@ == old(self).workers@
                &&& final(self).delivered@ == old(self).delivered@
                &&& final(self).executed@ == old(self).executed@
                &&& final(self).accepting
            }),
    {
        if !self.accepting {
            return Err(PoolError::PoolClosed);
        }
        self.queue.push(job);
        self.submitted.push(job);
        proof {
            assert(self.submitted@ =~= self.delivered@ + self.queue@);
            assert(!self.all_terminated());
        }
        Ok(())
    }

    /// One worker's claim attempt: hand it the job at the front of the
    /// queue; with an empty queue, tell it to keep waiting while the pool
    /// is open and to exit once the pool has been closed.
    pub fn claim(&mut self, wid: usize) -> (r: ClaimOutcome)
        requires
            old(self).wf(),
            wid < old(self).workers@.len(),
            old(self).workers@[wid as int] is Running,
        ensures
            final(self).wf(),
            final(self).accepting == old(self).accepting,
            final(self).submitted@ == old(self).submitted@,
            final(self).executed@ == old(self).executed@,
            old(self).queue@.len() > 0 ==> {
                &&& r == ClaimOutcome::Claimed(old(self).queue@[0])
                &&& final(self).queue@ == old(self).queue@.drop_first()
                &&& final(self).delivered@ == old(self).delivered@.push(old(self).queue@[0])
                &&& final(self).workers@ == old(self).workers@.update(
                    wid as int,
                    WorkerPhase::Executing(old(self).queue@[0]),
                )
            },
            old(self).queue@.len() == 0 && old(self).accepting ==> r == ClaimOutcome::KeepWaiting
                && *final(self) == *old(self),
            old(self).queue@.len() == 0 && !old(self).accepting ==> {
                &&& r == ClaimOutcome::Exit
                &&& final(self).queue@ == old(self).queue@
                &&& final(self).delivered@ == old(self).delivered@
                &&& final(self).workers@ == old(self).workers@.update(
                    wid as int,
                    WorkerPhase::Terminated,
                )
            },
    {
        if self.queue.len() > 0 {
            let job = self.queue.remove(0);
            self.workers[wid] = WorkerPhase::Executing(job);
            self.delivered.push(job);
            proof {
                broadcast use vstd::seq_lib::group_to_multiset_ensures;

                let prev = *old(self);
                assert(self.queue@ =~= prev.queue@.drop_first());
                assert(prev.delivered@ + prev.queue@ =~= self.delivered@ + self.queue@);
                assert(self.submitted@ =~= self.delivered@ + self.queue@);
                lemma_in_flight_update(
                    prev.workers@,
                    wid as int,
                    WorkerPhase::Executing(job),
                );
                assert(prev.delivered@.push(job).to_multiset() =~= prev.delivered@.to_multiset().insert(job));
                assert forall|x: u64|
                    self.delivered@.to_multiset().count(x) == self.executed@.to_multiset().add(
                        in_flight(self.workers@),
                    ).count(x) by {
                    assert(in_flight(self.workers@).add(
                        phase_load(prev.workers@[wid as int]),
                    ).count(x) == in_flight(prev.workers@).add(
                        phase_load(WorkerPhase::Executing(job)),
                    ).count(x));
                    assert(prev.delivered@.to_multiset().count(x) == prev.executed@.to_multiset().add(
                        in_flight(prev.workers@),
                    ).count(x));
                }
                assert(self.delivered@.to_multiset() =~= self.executed@.to_multiset().add(
                    in_flight(self.workers@),
                ));
                assert(!(self.workers@[wid as int] is Terminated));
                assert(!self.all_terminated());
                if self.workers@.len() == 1 {
                    assert(self.workers@[0] == WorkerPhase::Executing(job));
                    assert(self.delivered@ =~= self.executed@ + phase_jobs(self.workers@[0]));
                }
            }
            ClaimOutcome::Claimed(job)
        } else if self.accepting {
            ClaimOutcome::KeepWaiting
        } else {
            self.workers[wid] = WorkerPhase::Terminated;
            proof {
                let prev = *old(self);
                lemma_in_flight_update(prev.workers@, wid as int, WorkerPhase::Terminated);
                assert forall|x: u64|
                    self.delivered@.to_multiset().count(x) == self.executed@.to_multiset().add(
                        in_flight(self.workers@),
                    ).count(x) by {
                    assert(in_flight(self.workers@).add(
                        phase_load(prev.workers@[wid as int]),
                    ).count(x) == in_flight(prev.workers@).add(
                        phase_load(WorkerPhase::Terminated),
                    ).count(x));
                    assert(prev.delivered@.to_multiset().count(x) == prev.executed@.to_multiset().add(
                        in_flight(prev.workers@),
                    ).count(x));
                }
                assert(self.delivered@.to_multiset() =~= self.executed@.to_multiset().add(
                    in_flight(self.workers@),
                ));
                if self.workers@.len() == 1 {
                    assert(self.delivered@ =~= self.executed@ + phase_jobs(self.workers@[0]));
                }
            }
            ClaimOutcome::Exit
        }
    }

    /// One worker reports that the job it was executing has returned: the
    /// job moves to the finished log and the worker goes back to waiting.
    pub fn finish(&mut self, wid: usize)
        requires
            old(self).wf(),
            wid < old(self).workers@.len(),
            old(self).workers@[wid as int] is Executing,
        ensures
            final(self).wf(),
            final(self).accepting == old(self).accepting,
            final(self).submitted@ == old(self).submitted@,
            final(self).queue@ == old(self).queue@,
            final(self).delivered@ == old(self).delivered@,
            old(self).workers@[wid as int] matches WorkerPhase::Executing(j) ==> {
                &&& final(self).executed@ == old(self).executed@.push(j)
                &&& final(self).workers@ == old(self).workers@.update(
                    wid as int,
                    WorkerPhase::Running,
                )
            },
    {
        let phase = self.workers[wid];
        match phase {
            WorkerPhase::Executing(job) => {
                self.workers[wid] = WorkerPhase::Running;
                self.executed.push(job);
                proof {
                    broadcast use vstd::seq_lib::group_to_multiset_ensures;

                    let prev = *old(self);
                    lemma_in_flight_update(prev.workers@, wid as int, WorkerPhase::Running);
                    assert forall|x: u64|
                        self.delivered@.to_multiset().count(x) == self.executed@.to_multiset().add(
                            in_flight(self.workers@),
                        ).count(x) by {
                        assert(in_flight(self.workers@).add(
                            phase_load(prev.workers@[wid as int]),
                        ).count(x) == in_flight(prev.workers@).add(
                            phase_load(WorkerPhase::Running),
                        ).count(x));
                    }
                    assert(self.delivered@.to_multiset() =~= self.executed@.to_multiset().add(
                        in_flight(self.workers@),
                    ));
                    assert(!(self.workers@[wid as int] is Terminated));
                    assert(!self.all_terminated());
                    if self.workers@.len() == 1 {
                        assert(self.delivered@ =~= self.executed@ + phase_jobs(self.workers@[0]));
                    }
                }
            },
            _ => {
                proof {
                    assert(false);
                }
            },
        }
    }

    /// Begin shutdown: close the queue. No pending job is discarded; the
    /// closure is the signal a worker's next claim attempt turns into
    /// `Exit` once the queue has drained. Closing an already-closed pool
    /// changes nothing.
    pub fn shutdown(&mut self)
        requires
            old(self).wf(),
        ensures
            final(self).wf(),
            !final(self).accepting,
            final(self).workers@ == old(self).workers@,
            final(self).queue@ == old(self).queue@,
            final(self).submitted@ == old(self).submitted@,
            final(self).delivered@ == old(self).delivered@,
            final(self).executed@ == old(self).executed@,
    {
        self.accepting = false;
    }
}

/// Jobs are handed to workers in the order they were submitted: at every
/// point, the delivery log is exactly the leading part of the submission
/// log.
pub proof fn lemma_fifo_delivery(p: ThreadPool)
    requires
        p.wf(),
    ensures
        p.delivered@.len() <= p.submitted@.len(),
        p.delivered@ == p.submitted@.take(p.delivered@.len() as int),
{
    assert(p.delivered@ =~= (p.delivered@ + p.queue@).take(p.delivered@.len() as int));
}

/// At every point in a pool's life — not only after a drain — each job
/// has finished at most as many times as it was submitted, and the jobs
/// finished or in flight are exactly the jobs delivered so far.
pub proof fn lemma_no_duplication(p: ThreadPool)
    requires
        p.wf(),
    ensures
        forall|j: u64|
            #[trigger] p.executed@.to_multiset().count(j) + in_flight(p.workers@).count(j)
                == p.delivered@.to_multiset().count(j),
        forall|j: u64|
            p.delivered@.to_multiset().count(j) <= #[trigger] p.submitted@.to_multiset().count(j),
{
    vstd::seq_lib::lemma_multiset_commutative(p.delivered@, p.queue@);
    assert(p.submitted@.to_multiset() == p.delivered@.to_multiset().add(p.queue@.to_multiset()));
}

/// Nothing is lost and nothing runs twice: once every worker has
/// terminated, the queue has drained and the finished log holds exactly
/// the submitted jobs — the same multiset, so each submitted job finished
/// exactly as many times as it was submitted, and the counts agree.
pub proof fn lemma_drain_complete(p: ThreadPool)
    requires
        p.wf(),
        p.all_terminated(),
    ensures
        p.queue@.len() == 0,
        p.executed@.to_multiset() == p.submitted@.to_multiset(),
        p.executed@.len() == p.submitted@.len(),
        forall|j: u64|
            p.executed@.to_multiset().count(j) == p.submitted@.to_multiset().count(j),
{
    broadcast use vstd::seq_lib::group_to_multiset_ensures;

    lemma_in_flight_empty(p.workers@);
    assert(p.submitted@ =~= p.delivered@);
    assert(p.executed@.to_multiset() =~= p.executed@.to_multiset().add(in_flight(p.workers@)));
    assert(p.executed@.to_multiset().len() == p.executed@.len());
    assert(p.submitted@.to_multiset().len() == p.submitted@.len());
}

/// A pool with a single worker serializes execution in submission order
/// at every moment: what has finished so far is exactly the leading part
/// of the submission log.
pub proof fn lemma_single_worker_prefix(p: ThreadPool)
    requires
        p.wf(),
        p.workers@.len() == 1,
    ensures
        p.executed@.len() <= p.submitted@.len(),
        p.executed@ == p.submitted@.take(p.executed@.len() as int),
{
    assert(p.executed@ =~= (p.executed@ + phase_jobs(p.workers@[0])).take(
        p.executed@.len() as int,
    ));
    lemma_fifo_delivery(p);
    assert(p.executed@ =~= (p.submitted@.take(p.delivered@.len() as int)).take(
        p.executed@.len() as int,
    ));
    assert(p.executed@ =~= p.submitted@.take(p.executed@.len() as int));
}

/// A pool with a single worker serializes execution: once that worker has
/// terminated, the jobs finished in exactly the order they were
/// submitted.
pub proof fn lemma_single_worker_order(p: ThreadPool)
    requires
        p.wf(),
        p.workers@.len() == 1,
        p.all_terminated(),
    ensures
        p.executed@ == p.submitted@,
{
    assert(p.workers@[0] is Terminated);
    assert(p.submitted@ =~= p.delivered@);
    assert(p.executed@ =~= p.executed@ + phase_jobs(p.workers@[0]));
}

} // verus!
