//! The bounded worker pool: a fixed set of workers, a shared FIFO job queue,
//! and the lifecycle rules that connect them.
//!
//! The pool is modelled as a state machine over plain values. A job is known
//! to the pool by the identifier that `execute` hands back — the caller keeps
//! the job's action under that identifier and performs it when a worker
//! claims it. Every transition of the machine is a verified function here;
//! the threads that drive the transitions live outside the library.

use vstd::prelude::*;

verus! {

/// Why a pool operation was refused.
#[derive(Clone, Copy, PartialEq, Eq, Structural, Debug)]
pub enum PoolError {
    /// `new` was asked for a pool with no workers.
    InvalidSize,
    /// `execute` was called after shutdown began.
    RejectedSubmission,
}

/// What a single worker is doing.
#[derive(Clone, Copy, PartialEq, Eq, Structural, Debug)]
pub enum WorkerState {
    /// Waiting for a job.
    Idle,
    /// Running the job with the given identifier.
    Busy { job: usize },
    /// Exited its consume loop during shutdown.
    Terminated,
}

/// Where a submitted job stands in its life.
#[derive(Clone, Copy, PartialEq, Eq, Structural, Debug)]
pub enum JobState {
    /// Waiting in the queue.
    Queued,
    /// Claimed by the worker with the given index.
    Running { worker: usize },
    /// Executed to completion (successfully or not) by exactly one worker.
    Completed,
    /// Still queued when shutdown completed; never executed.
    Abandoned,
}

/// How many workers are busy.
pub open spec fn count_busy(ws: Seq<WorkerState>) -> nat
    decreases ws.len(),
{
    if ws.len() == 0 {
        0
    } else {
        count_busy(ws.drop_last()) + if ws.last() is Busy {
            1nat
        } else {
            0nat
        }
    }
}

/// How many workers have not terminated.
pub open spec fn count_live(ws: Seq<WorkerState>) -> nat
    decreases ws.len(),
{
    if ws.len() == 0 {
        0
    } else {
        count_live(ws.drop_last()) + if ws.last() is Terminated {
            0nat
        } else {
            1nat
        }
    }
}

/// How many jobs are running right now.
pub open spec fn count_running(js: Seq<JobState>) -> nat
    decreases js.len(),
{
    if js.len() == 0 {
        0
    } else {
        count_running(js.drop_last()) + if js.last() is Running {
            1nat
        } else {
            0nat
        }
    }
}

/// How many jobs have been executed to completion.
pub open spec fn count_completed(js: Seq<JobState>) -> nat
    decreases js.len(),
{
    if js.len() == 0 {
        0
    } else {
        count_completed(js.drop_last()) + if js.last() is Completed {
            1nat
        } else {
            0nat
        }
    }
}

proof fn lemma_count_busy_update(ws: Seq<WorkerState>, i: int, v: WorkerState)
    requires
        0 <= i < ws.len(),
    ensures
        count_busy(ws.update(i, v)) == count_busy(ws) - (if ws[i] is Busy {
            1int
        } else {
            0int
        }) + (if v is Busy {
            1int
        } else {
            0int
        }),
    decreases ws.len(),
{
    if i == ws.len() - 1 {
        assert(ws.update(i, v).drop_last() =~= ws.drop_last());
    } else {
        assert(ws.update(i, v).drop_last() =~= ws.drop_last().update(i, v));
        lemma_count_busy_update(ws.drop_last(), i, v);
    }
}

proof fn lemma_count_live_update(ws: Seq<WorkerState>, i: int, v: WorkerState)
    requires
        0 <= i < ws.len(),
    ensures
        count_live(ws.update(i, v)) == count_live(ws) - (if ws[i] is Terminated {
            0int
        } else {
            1int
        }) + (if v is Terminated {
            0int
        } else {
            1int
        }),
    decreases ws.len(),
{
    if i == ws.len() - 1 {
        assert(ws.update(i, v).drop_last() =~= ws.drop_last());
    } else {
        assert(ws.update(i, v).drop_last() =~= ws.drop_last().update(i, v));
        lemma_count_live_update(ws.drop_last(), i, v);
    }
}

proof fn lemma_count_running_update(js: Seq<JobState>, i: int, v: JobState)
    requires
        0 <= i < js.len(),
    ensures
        count_running(js.update(i, v)) == count_running(js) - (if js[i] is Running {
            1int
        } else {
            0int
        }) + (if v is Running {
            1int
        } else {
            0int
        }),
    decreases js.len(),
{
    if i == js.len() - 1 {
        assert(js.update(i, v).drop_last() =~= js.drop_last());
    } else {
        assert(js.update(i, v).drop_last() =~= js.drop_last().update(i, v));
        lemma_count_running_update(js.drop_last(), i, v);
    }
}

proof fn lemma_count_completed_update(js: Seq<JobState>, i: int, v: JobState)
    requires
        0 <= i < js.len(),
    ensures
        count_completed(js.update(i, v)) == count_completed(js) - (if js[i] is Completed {
            1int
        } else {
            0int
        }) + (if v is Completed {
            1int
        } else {
            0int
        }),
    decreases js.len(),
{
    if i == js.len() - 1 {
        assert(js.update(i, v).drop_last() =~= js.drop_last());
    } else {
        assert(js.update(i, v).drop_last() =~= js.drop_last().update(i, v));
        lemma_count_completed_update(js.drop_last(), i, v);
    }
}

proof fn lemma_count_busy_zero(ws: Seq<WorkerState>)
    requires
        forall|w: int| 0 <= w < ws.len() ==> !(#[trigger] ws[w] is Busy),
    ensures
        count_busy(ws) == 0,
    decreases ws.len(),
{
    if ws.len() > 0 {
        lemma_count_busy_zero(ws.drop_last());
    }
}

proof fn lemma_count_busy_le_len(ws: Seq<WorkerState>)
    ensures
        count_busy(ws) <= ws.len(),
    decreases ws.len(),
{
    if ws.len() > 0 {
        lemma_count_busy_le_len(ws.drop_last());
    }
}

proof fn lemma_count_live_zero(ws: Seq<WorkerState>)
    requires
        forall|w: int| 0 <= w < ws.len() ==> (#[trigger] ws[w]) is Terminated,
    ensures
        count_live(ws) == 0,
    decreases ws.len(),
{
    if ws.len() > 0 {
        lemma_count_live_zero(ws.drop_last());
    }
}

proof fn lemma_count_live_full(ws: Seq<WorkerState>)
    requires
        forall|w: int| 0 <= w < ws.len() ==> !(#[trigger] ws[w] is Terminated),
    ensures
        count_live(ws) == ws.len(),
    decreases ws.len(),
{
    if ws.len() > 0 {
        lemma_count_live_full(ws.drop_last());
    }
}

/// The pool: its workers, every job it was ever handed, the queue of jobs
/// not yet claimed (as indices into `jobs`, oldest first), and whether
/// shutdown has begun.
pub struct Pool {
    pub workers: Vec<WorkerState>,
    pub jobs: Vec<JobState>,
    pub queue: Vec<usize>,
    pub shutting_down: bool,
}

impl Pool {
    /// The queue holds exactly the queued jobs, each once, in submission
    /// order (job identifiers grow with submission, so the queue ascends).
    pub open spec fn queue_ok(self) -> bool {
        &&& forall|k: int|
            0 <= k < self.queue@.len() ==> (#[trigger] self.queue@[k] < self.jobs@.len()
                && self.jobs@[self.queue@[k] as int] is Queued)
        &&& forall|k1: int, k2: int|
            0 <= k1 < k2 < self.queue@.len() ==> self.queue@[k1] < self.queue@[k2]
        &&& forall|j: usize|
            j < self.jobs@.len() && (#[trigger] self.jobs@[j as int]) is Queued
                ==> self.queue@.contains(j)
    }

    /// A busy worker and the job it runs point at each other, so a running
    /// job is claimed by exactly one worker and a worker runs one job.
    pub open spec fn links_ok(self) -> bool {
        &&& forall|w: usize|
            w < self.workers@.len() ==> ((#[trigger] self.workers@[w as int]) matches
                WorkerState::Busy { job } ==> job < self.jobs@.len() && self.jobs@[job as int]
                == (JobState::Running { worker: w }))
        &&& forall|j: usize|
            j < self.jobs@.len() ==> ((#[trigger] self.jobs@[j as int]) matches JobState::Running {
                worker,
            } ==> worker < self.workers@.len() && self.workers@[worker as int]
                == (WorkerState::Busy { job: j }))
    }

    /// Workers terminate, and queued jobs are abandoned, only during
    /// shutdown: a job's failure never costs the pool a worker.
    pub open spec fn lifecycle_ok(self) -> bool {
        &&& !self.shutting_down ==> forall|w: int|
            0 <= w < self.workers@.len() ==> !((#[trigger] self.workers@[w]) is Terminated)
        &&& !self.shutting_down ==> forall|j: int|
            0 <= j < self.jobs@.len() ==> !((#[trigger] self.jobs@[j]) is Abandoned)
    }

    /// The pool's invariant: established by `new`, preserved by every
    /// transition.
    pub open spec fn wf(self) -> bool {
        &&& self.workers@.len() >= 1
        &&& self.queue_ok()
        &&& self.links_ok()
        &&& self.lifecycle_ok()
        &&& count_running(self.jobs@) == count_busy(self.workers@)
    }

    /// Start a pool of exactly `size` idle workers. A pool with no workers
    /// could never run anything, so `size == 0` is a configuration error.
    pub fn new(size: usize) -> (r: Result<Pool, PoolError>)
        ensures
            size == 0 ==> (r matches Err(e) && e == PoolError::InvalidSize),
            size >= 1 ==> (r matches Ok(p) && p.wf() && p.workers@.len() == size && (forall|w: int|
                0 <= w < size ==> (#[trigger] p.workers@[w]) is Idle) && p.jobs@.len() == 0
                && p.queue@.len() == 0 && !p.shutting_down),
    {
        if size == 0 {
            return Err(PoolError::InvalidSize);
        }
        let mut workers: Vec<WorkerState> = Vec::new();
        let mut i: usize = 0;
        while i < size
            invariant
                i <= size,
                workers@.len() == i,
                forall|w: int| 0 <= w < i ==> (#[trigger] workers@[w]) is Idle,
            decreases size - i,
        {
            workers.push(WorkerState::Idle);
            i += 1;
        }
        let p = Pool { workers, jobs: Vec::new(), queue: Vec::new(), shutting_down: false };
        proof {
            lemma_count_busy_zero(p.workers@);
        }
        Ok(p)
    }

    /// Submit a job. The call returns at once, never waiting for a worker:
    /// the job is only recorded at the back of the queue, under the
    /// identifier handed back. After shutdown has begun the submission is
    /// rejected and the pool is left untouched.
    pub fn execute(&mut self) -> (r: Result<usize, PoolError>)
        requires
            old(self).wf(),
        ensures
            final(self).wf(),
            old(self).shutting_down ==> (r matches Err(e) && e == PoolError::RejectedSubmission
                && *final(self) == *old(self)),
            !old(self).shutting_down ==> (r matches Ok(id) && id == old(self).jobs@.len()
                && final(self).jobs@ == old(self).jobs@.push(JobState::Queued)
                && final(self).queue@ == old(self).queue@.push(id)
                && final(self).workers@ == old(self).workers@
                && final(self).shutting_down == old(self).shutting_down),
    {
        if self.shutting_down {
            return Err(PoolError::RejectedSubmission);
        }
        let id = self.jobs.len();
        self.jobs.push(JobState::Queued);
        self.queue.push(id);
        proof {
            assert(self.jobs@.drop_last() =~= old(self).jobs@);
            assert forall|j: usize|
                j < self.jobs@.len() && (#[trigger] self.jobs@[j as int]) is Queued implies self
                .queue@.contains(j) by {
                if j < old(self).jobs@.len() {
                    assert(old(self).queue@.contains(j));
                    let k = choose|k: int|
                        0 <= k < old(self).queue@.len() && old(self).queue@[k] == j;
                    assert(self.queue@[k] == j);
                } else {
                    assert(self.queue@[self.queue@.len() - 1] == j);
                }
            }
        }
        Ok(id)
    }

    /// An idle worker claims the oldest waiting job. Exactly one worker
    /// receives it: the job leaves the queue and records its worker, so no
    /// other claim of it can ever satisfy this function's precondition.
    pub fn take_job(&mut self, w: usize) -> (r: Option<usize>)
        requires
            old(self).wf(),
            w < old(self).workers@.len(),
            old(self).workers@[w as int] is Idle,
        ensures
            final(self).wf(),
            old(self).queue@.len() == 0 ==> (r is None && *final(self) == *old(self)),
            old(self).queue@.len() > 0 ==> (r matches Some(j) && j == old(self).queue@[0]
                && final(self).queue@ == old(self).queue@.subrange(
                1,
                old(self).queue@.len() as int,
            ) && final(self).jobs@ == old(self).jobs@.update(
                j as int,
                (JobState::Running { worker: w }),
            ) && final(self).workers@ == old(self).workers@.update(
                w as int,
                (WorkerState::Busy { job: j }),
            ) && final(self).shutting_down == old(self).shutting_down),
    {
        if self.queue.len() == 0 {
            return None;
        }
        let j = self.queue.remove(0);
        self.jobs[j] = JobState::Running { worker: w };
        self.workers[w] = WorkerState::Busy { job: j };
        proof {
            lemma_count_running_update(
                old(self).jobs@,
                j as int,
                JobState::Running { worker: w },
            );
            lemma_count_busy_update(old(self).workers@, w as int, WorkerState::Busy { job: j });
            // every still-queued job is still in the queue
            assert forall|j2: usize|
                j2 < self.jobs@.len() && (#[trigger] self.jobs@[j2 as int]) is Queued implies self
                .queue@.contains(j2) by {
                assert(old(self).jobs@[j2 as int] is Queued);
                assert(old(self).queue@.contains(j2));
                let k = choose|k: int|
                    0 <= k < old(self).queue@.len() && old(self).queue@[k] == j2;
                assert(k != 0);
                assert(self.queue@[k - 1] == j2);
            }
        }
        Some(j)
    }

    /// The worker `w` finishes the job it was running and goes back to
    /// waiting. The outcome of the job is deliberately ignored: the final
    /// state does not depend on `job_succeeded`, so a failing job leaves the
    /// pool exactly as a succeeding one does — in particular it never costs
    /// the pool a worker.
    #[allow(unused_variables)]
    pub fn finish_job(&mut self, w: usize, job_succeeded: bool)
        requires
            old(self).wf(),
            w < old(self).workers@.len(),
            old(self).workers@[w as int] is Busy,
        ensures
            final(self).wf(),
            final(self).workers@ == old(self).workers@.update(w as int, WorkerState::Idle),
            final(self).jobs@ == old(self).jobs@.update(
                old(self).workers@[w as int]->job as int,
                JobState::Completed,
            ),
            final(self).queue@ == old(self).queue@,
            final(self).shutting_down == old(self).shutting_down,
            count_live(final(self).workers@) == count_live(old(self).workers@),
    {
        let wstate = self.workers[w];
        let j: usize = match wstate {
            WorkerState::Busy { job } => job,
            _ => {
                proof {
                    assert(false);
                }
                0
            },
        };
        self.jobs[j] = JobState::Completed;
        self.workers[w] = WorkerState::Idle;
        proof {
            lemma_count_running_update(old(self).jobs@, j as int, JobState::Completed);
            lemma_count_busy_update(old(self).workers@, w as int, WorkerState::Idle);
            lemma_count_live_update(old(self).workers@, w as int, WorkerState::Idle);
            assert forall|j2: usize|
                j2 < self.jobs@.len() && (#[trigger] self.jobs@[j2 as int]) is Queued implies self
                .queue@.contains(j2) by {
                assert(old(self).jobs@[j2 as int] is Queued);
            }
            // no other worker was running job `j`, and no other job was
            // running on worker `w`, so the remaining links are untouched
            assert forall|w2: usize|
                w2 < self.workers@.len() && (#[trigger] self.workers@[w2 as int]) is Busy implies {
                let job = self.workers@[w2 as int]->job;
                job < self.jobs@.len() && self.jobs@[job as int] == (JobState::Running {
                    worker: w2,
                })
            } by {
                let job = self.workers@[w2 as int]->job;
                assert(w2 != w);
                assert(old(self).workers@[w2 as int] is Busy);
                assert(old(self).jobs@[job as int] == (JobState::Running { worker: w2 }));
                assert(old(self).jobs@[j as int] == (JobState::Running { worker: w }));
                assert(job != j);
            }
            assert forall|j2: usize|
                j2 < self.jobs@.len() && (#[trigger] self.jobs@[j2 as int]) is Running implies {
                let worker = self.jobs@[j2 as int]->worker;
                worker < self.workers@.len() && self.workers@[worker as int]
                    == (WorkerState::Busy { job: j2 })
            } by {
                let worker = self.jobs@[j2 as int]->worker;
                assert(j2 != j);
                assert(old(self).jobs@[j2 as int] is Running);
                assert(old(self).workers@[worker as int] == (WorkerState::Busy {
                    job: j2,
                }));
                assert(worker != w);
            }
        }
    }

    /// A non-busy worker exits its consume loop during shutdown.
    fn retire_worker(&mut self, w: usize)
        requires
            old(self).wf(),
            old(self).shutting_down,
            w < old(self).workers@.len(),
            !(old(self).workers@[w as int] is Busy),
        ensures
            final(self).wf(),
            final(self).workers@ == old(self).workers@.update(w as int, WorkerState::Terminated),
            final(self).jobs@ == old(self).jobs@,
            final(self).queue@ == old(self).queue@,
            final(self).shutting_down,
    {
        self.workers[w] = WorkerState::Terminated;
        proof {
            lemma_count_busy_update(old(self).workers@, w as int, WorkerState::Terminated);
            // no running job pointed at `w`, which was not busy
            assert forall|j2: usize|
                j2 < self.jobs@.len() && (#[trigger] self.jobs@[j2 as int]) is Running implies {
                let worker = self.jobs@[j2 as int]->worker;
                worker < self.workers@.len() && self.workers@[worker as int]
                    == (WorkerState::Busy { job: j2 })
            } by {
                let worker = self.jobs@[j2 as int]->worker;
                assert(old(self).workers@[worker as int] == (WorkerState::Busy { job: j2 }));
                assert(worker != w);
            }
        }
    }

    /// The shutdown barrier. New submissions are refused from here on; every
    /// worker finishes the job it had already claimed, then exits its loop;
    /// jobs still sitting unclaimed in the queue are abandoned, never run.
    /// When this returns, no worker is live.
    pub fn shutdown(&mut self)
        requires
            old(self).wf(),
        ensures
            final(self).wf(),
            final(self).shutting_down,
            final(self).workers@.len() == old(self).workers@.len(),
            forall|w: int|
                0 <= w < final(self).workers@.len() ==> (#[trigger] final(self).workers@[w])
                    is Terminated,
            count_live(final(self).workers@) == 0,
            final(self).jobs@.len() == old(self).jobs@.len(),
            forall|j: usize|
                j < old(self).jobs@.len() && (#[trigger] old(self).jobs@[j as int]) is Running
                    ==> final(self).jobs@[j as int] is Completed,
            forall|j: usize|
                j < old(self).jobs@.len() && (#[trigger] old(self).jobs@[j as int]) is Completed
                    ==> final(self).jobs@[j as int] is Completed,
            forall|j: usize|
                j < old(self).jobs@.len() && (#[trigger] old(self).jobs@[j as int]) is Queued
                    ==> final(self).jobs@[j as int] is Abandoned,
            forall|j: usize|
                j < old(self).jobs@.len() && (#[trigger] old(self).jobs@[j as int]) is Abandoned
                    ==> final(self).jobs@[j as int] is Abandoned,
            final(self).queue@.len() == 0,
    {
        self.shutting_down = true;
        let n = self.workers.len();
        let mut w: usize = 0;
        while w < n
            invariant
                self.wf(),
                self.shutting_down,
                w <= n,
                n == self.workers@.len(),
                self.workers@.len() == old(self).workers@.len(),
                self.jobs@.len() == old(self).jobs@.len(),
                self.queue@ == old(self).queue@,
                forall|w2: int| 0 <= w2 < w ==> (#[trigger] self.workers@[w2]) is Terminated,
                forall|w2: int|
                    w <= w2 < n ==> #[trigger] self.workers@[w2] == old(self).workers@[w2],
                forall|j: usize|
                    j < old(self).jobs@.len() && (#[trigger] old(self).jobs@[j as int]) is Running
                        ==> {
                        let worker = old(self).jobs@[j as int]->worker;
                        &&& (worker < w ==> self.jobs@[j as int] is Completed)
                        &&& (worker >= w ==> self.jobs@[j as int] == old(self).jobs@[j as int])
                    },
                forall|j: usize|
                    j < old(self).jobs@.len() && !((#[trigger] old(self).jobs@[j as int])
                        is Running) ==> self.jobs@[j as int] == old(self).jobs@[j as int],
            decreases n - w,
        {
            let wstate = self.workers[w];
            match wstate {
                WorkerState::Busy { job } => {
                    proof {
                        assert(self.jobs@[job as int] == (JobState::Running { worker: w }));
                        assert(old(self).workers@[w as int] == (WorkerState::Busy { job }));
                        assert(old(self).jobs@[job as int] == (JobState::Running { worker: w }));
                    }
                    self.finish_job(w, true);
                    self.retire_worker(w);
                },
                _ => {
                    self.retire_worker(w);
                },
            }
            w += 1;
        }
        while self.queue.len() > 0
            invariant
                self.wf(),
                self.shutting_down,
                self.workers@.len() == old(self).workers@.len(),
                self.jobs@.len() == old(self).jobs@.len(),
                forall|w2: int|
                    0 <= w2 < self.workers@.len() ==> (#[trigger] self.workers@[w2])
                        is Terminated,
                self.queue@.len() <= old(self).queue@.len(),
                self.queue@ == old(self).queue@.subrange(0, self.queue@.len() as int),
                forall|j: usize|
                    j < old(self).jobs@.len() && (#[trigger] old(self).jobs@[j as int]) is Running
                        ==> self.jobs@[j as int] is Completed,
                forall|j: usize|
                    j < old(self).jobs@.len() && (#[trigger] old(self).jobs@[j as int])
                        is Completed ==> self.jobs@[j as int] is Completed,
                forall|j: usize|
                    j < old(self).jobs@.len() && (#[trigger] old(self).jobs@[j as int]) is Queued
                        ==> (self.jobs@[j as int] is Queued || self.jobs@[j as int] is Abandoned),
                forall|j: usize|
                    j < old(self).jobs@.len() && (#[trigger] old(self).jobs@[j as int])
                        is Abandoned ==> self.jobs@[j as int] is Abandoned,
            decreases self.queue@.len(),
        {
            let ghost pre = *self;
            let popped = self.queue.pop();
            let j: usize = match popped {
                Some(j) => j,
                None => {
                    proof {
                        assert(false);
                    }
                    0
                },
            };
            proof {
                assert(j == pre.queue@.last());
                assert(pre.jobs@[j as int] is Queued);
            }
            self.jobs[j] = JobState::Abandoned;
            proof {
                assert(self.queue@ =~= old(self).queue@.subrange(0, self.queue@.len() as int));
                lemma_count_running_update(pre.jobs@, j as int, JobState::Abandoned);
                // every job still queued sits in the shortened queue: it is
                // not `j`, and `j` held only the popped last slot since the
                // queue ascends strictly
                assert forall|j2: usize|
                    j2 < self.jobs@.len() && (#[trigger] self.jobs@[j2 as int]) is Queued implies
                    self.queue@.contains(j2) by {
                    assert(pre.jobs@[j2 as int] is Queued);
                    assert(pre.queue@.contains(j2));
                    let k = choose|k: int|
                        0 <= k < pre.queue@.len() && pre.queue@[k] == j2;
                    assert(j2 != j);
                    assert(k != pre.queue@.len() - 1);
                    assert(self.queue@[k] == j2);
                }
            }
        }
        proof {
            lemma_count_live_zero(self.workers@);
            // the queue is empty, so nothing is left queued: every job that
            // was queued when shutdown began is now abandoned
            assert forall|j: usize|
                j < old(self).jobs@.len() && (#[trigger] old(self).jobs@[j as int]) is Queued
                    implies self.jobs@[j as int] is Abandoned by {
                if self.jobs@[j as int] is Queued {
                    assert(self.queue@.contains(j));
                }
            }
        }
    }

    /// Drive the pool until nothing is waiting or in flight. When this
    /// returns, every job ever submitted has been executed — exactly once,
    /// since a queued job can only be claimed once and a completed job is
    /// never claimed again — and every worker is idle again.
    pub fn run_until_idle(&mut self)
        requires
            old(self).wf(),
            !old(self).shutting_down,
        ensures
            final(self).wf(),
            !final(self).shutting_down,
            final(self).workers@.len() == old(self).workers@.len(),
            forall|w: int|
                0 <= w < final(self).workers@.len() ==> (#[trigger] final(self).workers@[w])
                    is Idle,
            final(self).jobs@.len() == old(self).jobs@.len(),
            forall|j: usize|
                j < final(self).jobs@.len() ==> (#[trigger] final(self).jobs@[j as int])
                    is Completed,
            final(self).queue@.len() == 0,
    {
        let n = self.workers.len();
        let mut w: usize = 0;
        while w < n
            invariant
                self.wf(),
                !self.shutting_down,
                w <= n,
                n == self.workers@.len(),
                self.workers@.len() == old(self).workers@.len(),
                self.jobs@.len() == old(self).jobs@.len(),
                forall|w2: int| 0 <= w2 < w ==> (#[trigger] self.workers@[w2]) is Idle,
                forall|w2: int|
                    w <= w2 < n ==> #[trigger] self.workers@[w2] == old(self).workers@[w2],
            decreases n - w,
        {
            let wstate = self.workers[w];
            match wstate {
                WorkerState::Busy { job: _ } => {
                    self.finish_job(w, true);
                },
                _ => {
                    proof {
                        assert(!(self.workers@[w as int] is Terminated));
                    }
                },
            }
            w += 1;
        }
        while self.queue.len() > 0
            invariant
                self.wf(),
                !self.shutting_down,
                self.workers@.len() == old(self).workers@.len(),
                self.jobs@.len() == old(self).jobs@.len(),
                forall|w2: int|
                    0 <= w2 < self.workers@.len() ==> (#[trigger] self.workers@[w2]) is Idle,
            decreases self.queue@.len(),
        {
            self.take_job(0);
            self.finish_job(0, true);
        }
        proof {
            // nothing is queued, nothing is running, nothing was abandoned:
            // every job has been executed
            assert forall|j: usize|
                j < self.jobs@.len() implies (#[trigger] self.jobs@[j as int]) is Completed by {
                if self.jobs@[j as int] is Queued {
                    assert(self.queue@.contains(j));
                }
                if self.jobs@[j as int] is Running {
                    let worker = self.jobs@[j as int]->worker;
                    assert(self.workers@[worker as int] is Busy);
                }
            }
        }
    }

    /// One scheduling round, as observed at a full stop: each idle worker
    /// claims at most one waiting job and runs it to completion. With `q`
    /// jobs waiting and `n` workers, a round completes `min(q, n)` jobs in
    /// queue order, which is why `q` jobs drain in `ceil(q / n)` rounds.
    pub fn run_round(&mut self)
        requires
            old(self).wf(),
            !old(self).shutting_down,
            forall|w: int|
                0 <= w < old(self).workers@.len() ==> (#[trigger] old(self).workers@[w]) is Idle,
        ensures
            final(self).wf(),
            !final(self).shutting_down,
            final(self).workers@.len() == old(self).workers@.len(),
            forall|w: int|
                0 <= w < final(self).workers@.len() ==> (#[trigger] final(self).workers@[w])
                    is Idle,
            final(self).jobs@.len() == old(self).jobs@.len(),
            final(self).queue@.len() == (if old(self).queue@.len() >= old(self).workers@.len() {
                old(self).queue@.len() - old(self).workers@.len()
            } else {
                0
            }),
            final(self).queue@ == old(self).queue@.subrange(
                old(self).queue@.len() - final(self).queue@.len(),
                old(self).queue@.len() as int,
            ),
            count_completed(final(self).jobs@) == count_completed(old(self).jobs@) + (if old(
                self,
            ).queue@.len() >= old(self).workers@.len() {
                old(self).workers@.len()
            } else {
                old(self).queue@.len()
            }),
    {
        let n = self.workers.len();
        let mut w: usize = 0;
        while w < n && self.queue.len() > 0
            invariant
                self.wf(),
                !self.shutting_down,
                w <= n,
                n == self.workers@.len(),
                self.workers@.len() == old(self).workers@.len(),
                self.jobs@.len() == old(self).jobs@.len(),
                forall|w2: int|
                    0 <= w2 < self.workers@.len() ==> (#[trigger] self.workers@[w2]) is Idle,
                self.queue@.len() <= old(self).queue@.len(),
                old(self).queue@.len() - self.queue@.len() == (if w <= old(self).queue@.len() {
                    w as int
                } else {
                    old(self).queue@.len() as int
                }),
                self.queue@ == old(self).queue@.subrange(
                    old(self).queue@.len() - self.queue@.len(),
                    old(self).queue@.len() as int,
                ),
                count_completed(self.jobs@) == count_completed(old(self).jobs@) + (old(
                    self,
                ).queue@.len() - self.queue@.len()),
            decreases n - w,
        {
            let ghost pre = *self;
            self.take_job(w);
            let ghost mid = *self;
            proof {
                let j = pre.queue@[0];
                lemma_count_completed_update(
                    pre.jobs@,
                    j as int,
                    JobState::Running { worker: w },
                );
            }
            self.finish_job(w, true);
            proof {
                let j = pre.queue@[0];
                lemma_count_completed_update(mid.jobs@, j as int, JobState::Completed);
                assert(!(mid.jobs@[j as int] is Completed));
                assert(self.queue@ =~= old(self).queue@.subrange(
                    old(self).queue@.len() - self.queue@.len(),
                    old(self).queue@.len() as int,
                ));
            }
            w += 1;
        }
    }

    /// Count the workers that have not terminated.
    pub fn live_workers(&self) -> (r: usize)
        ensures
            r == count_live(self.workers@),
    {
        let mut r: usize = 0;
        let mut i: usize = 0;
        while i < self.workers.len()
            invariant
                i <= self.workers@.len(),
                r <= i,
                r == count_live(self.workers@.take(i as int)),
            decreases self.workers@.len() - i,
        {
            proof {
                assert(self.workers@.take(i as int + 1).drop_last() =~= self.workers@.take(
                    i as int,
                ));
            }
            match self.workers[i] {
                WorkerState::Terminated => {},
                _ => {
                    r += 1;
                },
            }
            i += 1;
        }
        proof {
            assert(self.workers@.take(self.workers@.len() as int) =~= self.workers@);
        }
        r
    }

    /// Count the jobs that have been executed to completion.
    pub fn completed_jobs(&self) -> (r: usize)
        ensures
            r == count_completed(self.jobs@),
    {
        let mut r: usize = 0;
        let mut i: usize = 0;
        while i < self.jobs.len()
            invariant
                i <= self.jobs@.len(),
                r <= i,
                r == count_completed(self.jobs@.take(i as int)),
            decreases self.jobs@.len() - i,
        {
            proof {
                assert(self.jobs@.take(i as int + 1).drop_last() =~= self.jobs@.take(i as int));
            }
            match self.jobs[i] {
                JobState::Completed => {
                    r += 1;
                },
                _ => {},
            }
            i += 1;
        }
        proof {
            assert(self.jobs@.take(self.jobs@.len() as int) =~= self.jobs@);
        }
        r
    }
}

/// A pool never has more jobs in execution than it has workers: excess
/// submissions wait in the queue, which is the backpressure mechanism.
pub proof fn lemma_bounded_concurrency(p: &Pool)
    requires
        p.wf(),
    ensures
        count_running(p.jobs@) <= p.workers@.len(),
{
    lemma_count_busy_le_len(p.workers@);
}

/// Until shutdown begins, every worker of the pool is live: no job outcome —
/// success or failure — ever removes a worker, so capacity never shrinks.
pub proof fn lemma_full_capacity(p: &Pool)
    requires
        p.wf(),
        !p.shutting_down,
    ensures
        count_live(p.workers@) == p.workers@.len(),
{
    lemma_count_live_full(p.workers@);
}

/// Waiting jobs stand in the queue in submission order: job identifiers
/// grow with each submission, and an earlier queue slot always holds an
/// earlier submission.
pub proof fn lemma_fifo_order(p: &Pool, k1: int, k2: int)
    requires
        p.wf(),
        0 <= k1 < k2 < p.queue@.len(),
    ensures
        p.queue@[k1] < p.queue@[k2],
{
}

/// A running job is held by exactly one worker: the one it records. No
/// second worker can ever be busy on the same job.
pub proof fn lemma_exclusive_delivery(p: &Pool, j: usize)
    requires
        p.wf(),
        j < p.jobs@.len(),
        p.jobs@[j as int] is Running,
    ensures
        ({
            let w = p.jobs@[j as int]->worker;
            &&& w < p.workers@.len()
            &&& p.workers@[w as int] == (WorkerState::Busy { job: j })
            &&& forall|w2: usize|
                w2 < p.workers@.len() && w2 != w ==> (#[trigger] p.workers@[w2 as int])
                    != (WorkerState::Busy { job: j })
        }),
{
    let w = p.jobs@[j as int]->worker;
    assert forall|w2: usize|
        w2 < p.workers@.len() && w2 != w implies (#[trigger] p.workers@[w2 as int])
        != (WorkerState::Busy { job: j }) by {
        if p.workers@[w2 as int] == (WorkerState::Busy { job: j }) {
            assert(p.jobs@[j as int] == (JobState::Running { worker: w2 }));
        }
    }
}

} // verus!
