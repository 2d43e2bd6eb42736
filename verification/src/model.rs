//! The mathematical model of the pool.
//!
//! A [`PoolModel`] is the state of a pool as the contracts see it: the queue,
//! the workers, the flag that says whether jobs are accepted, and a ledger
//! that remembers, for every job ever accepted, how often it was handed to a
//! worker and how often a worker reported it finished. The transitions are
//! total spec functions: a request that does not apply in the current state
//! leaves the state as it is.
use vstd::prelude::*;

verus! {

/// Where a worker stands in its life cycle.
#[derive(Clone, Copy, Debug, PartialEq, Eq, Structural)]
pub enum WorkerState {
    /// Idle: ready to take the next job from the queue.
    Running,
    /// Holding a job that it took from the queue and has not yet finished.
    Executing,
    /// It found the queue closed and drained, and is leaving its loop.
    Terminating,
    /// Its thread has been waited for; nothing more happens to it.
    Joined,
}

/// What a worker is told when it asks for work.
#[derive(Debug, PartialEq, Eq)]
pub enum Dispatch<J> {
    /// Execute this job, once, then report that it is finished.
    Run(J),
    /// Nothing is queued and the pool still accepts jobs: block until woken.
    Wait,
    /// The queue is closed and drained: leave the loop.
    Exit,
}

/// A worker as the model sees it.
pub struct WorkerModel {
    pub state: WorkerState,
    /// The position, among the accepted jobs, of the job in its hands.
    pub job: Option<int>,
}

/// What the ledger remembers of one accepted job.
pub struct JobRecord {
    /// How many times the job was handed to a worker.
    pub starts: nat,
    /// How many times a worker reported the job finished.
    pub finishes: nat,
    /// The worker it was handed to.
    pub worker: Option<int>,
}

/// The state of a pool.
#[verifier::ext_equal]
pub struct PoolModel<J> {
    /// Whether the submitting endpoint still exists.
    pub accepting: bool,
    /// The jobs that wait in the queue, oldest first.
    pub pending: Seq<J>,
    /// The workers, by id.
    pub workers: Seq<WorkerModel>,
    /// Every job accepted so far, in the order of acceptance.
    pub accepted: Seq<J>,
    /// One record for each accepted job.
    pub ledger: Seq<JobRecord>,
}

/// Something that happens to a pool.
pub enum Event<J> {
    /// A producer submits a job.
    Submit(J),
    /// Shutdown begins: the submitting endpoint is removed.
    Close,
    /// The worker asks for work.
    Dequeue(int),
    /// The worker reports that the job in its hands is over.
    Finish(int),
    /// The worker's thread has been waited for.
    Join(int),
}

impl<J> Event<J> {
    /// The jobs that the events of `trace` submit, in the order of the
    /// events.
    pub open spec fn submitted(trace: Seq<Event<J>>) -> Seq<J>
        decreases trace.len(),
    {
        if trace.len() == 0 {
            Seq::empty()
        } else {
            match trace.last() {
                Event::Submit(job) => Self::submitted(trace.drop_last()).push(job),
                _ => Self::submitted(trace.drop_last()),
            }
        }
    }

    /// No event of `trace` begins shutdown.
    pub open spec fn none_closes(trace: Seq<Event<J>>) -> bool {
        forall|k: int| 0 <= k < trace.len() ==> !(#[trigger] trace[k] is Close)
    }
}

impl<J> PoolModel<J> {
    /// A pool just created with `size` workers.
    pub open spec fn fresh(size: nat) -> Self {
        PoolModel {
            accepting: true,
            pending: Seq::empty(),
            workers: Seq::new(size, |w: int| WorkerModel { state: WorkerState::Running, job: None }),
            accepted: Seq::empty(),
            ledger: Seq::empty(),
        }
    }

    /// How many jobs have left the queue.
    pub open spec fn cursor(self) -> int {
        self.accepted.len() - self.pending.len()
    }

    /// Whether `w` is the id of a worker of this pool.
    pub open spec fn is_worker(self, w: int) -> bool {
        0 <= w < self.workers.len()
    }

    /// Whether worker `w` exists and is in state `s`.
    pub open spec fn worker_in(self, w: int, s: WorkerState) -> bool {
        self.is_worker(w) && self.workers[w].state == s
    }

    /// The ids of the workers that have not been joined, ascending: the
    /// threads that a shutdown still has to wait for.
    pub open spec fn unjoined(self) -> Seq<int> {
        Seq::new(self.workers.len(), |w: int| w).filter(
            |w: int| self.workers[w].state != WorkerState::Joined,
        )
    }

    /// Every worker has been joined: shutdown is over.
    pub open spec fn terminated(self) -> bool {
        forall|w: int| self.is_worker(w) ==> (#[trigger] self.workers[w]).state == WorkerState::Joined
    }

    /// A producer submits `job`. A closed pool refuses it.
    pub open spec fn submit(self, job: J) -> Self {
        if self.accepting {
            PoolModel {
                pending: self.pending.push(job),
                accepted: self.accepted.push(job),
                ledger: self.ledger.push(JobRecord { starts: 0, finishes: 0, worker: None }),
                ..self
            }
        } else {
            self
        }
    }

    /// Shutdown begins. On a closed pool nothing changes.
    pub open spec fn close(self) -> Self {
        PoolModel { accepting: false, ..self }
    }

    /// Worker `w` asks for work. An idle worker gets the oldest queued job,
    /// or stays idle while the queue is empty and open, or starts leaving
    /// once the queue is empty and closed.
    pub open spec fn dequeue(self, w: int) -> Self {
        if !self.worker_in(w, WorkerState::Running) {
            self
        } else if self.pending.len() > 0 {
            let j = self.cursor();
            PoolModel {
                pending: self.pending.drop_first(),
                workers: self.workers.update(
                    w,
                    WorkerModel { state: WorkerState::Executing, job: Some(j) },
                ),
                ledger: self.ledger.update(
                    j,
                    JobRecord {
                        starts: self.ledger[j].starts + 1,
                        finishes: self.ledger[j].finishes,
                        worker: Some(w),
                    },
                ),
                ..self
            }
        } else if self.accepting {
            self
        } else {
            PoolModel {
                workers: self.workers.update(
                    w,
                    WorkerModel { state: WorkerState::Terminating, job: None },
                ),
                ..self
            }
        }
    }

    /// The answer worker `w` gets when it asks for work.
    pub open spec fn handed(self, w: int) -> Option<Dispatch<J>> {
        if !self.worker_in(w, WorkerState::Running) {
            None
        } else if self.pending.len() > 0 {
            Some(Dispatch::Run(self.pending[0]))
        } else if self.accepting {
            Some(Dispatch::Wait)
        } else {
            Some(Dispatch::Exit)
        }
    }

    /// Worker `w` reports that the job in its hands is over, whether it ended
    /// well or faulted: the worker is idle again.
    pub open spec fn finish(self, w: int) -> Self {
        if self.worker_in(w, WorkerState::Executing) && self.workers[w].job is Some {
            let j = self.workers[w].job->0;
            PoolModel {
                workers: self.workers.update(
                    w,
                    WorkerModel { state: WorkerState::Running, job: None },
                ),
                ledger: self.ledger.update(
                    j,
                    JobRecord {
                        starts: self.ledger[j].starts,
                        finishes: self.ledger[j].finishes + 1,
                        worker: self.ledger[j].worker,
                    },
                ),
                ..self
            }
        } else {
            self
        }
    }

    /// The thread of worker `w` has been waited for. Only a worker that is
    /// leaving can be joined.
    pub open spec fn join(self, w: int) -> Self {
        if self.worker_in(w, WorkerState::Terminating) {
            PoolModel {
                workers: self.workers.update(
                    w,
                    WorkerModel { state: WorkerState::Joined, job: None },
                ),
                ..self
            }
        } else {
            self
        }
    }

    /// The state after one event.
    pub open spec fn step(self, e: Event<J>) -> Self {
        match e {
            Event::Submit(job) => self.submit(job),
            Event::Close => self.close(),
            Event::Dequeue(w) => self.dequeue(w),
            Event::Finish(w) => self.finish(w),
            Event::Join(w) => self.join(w),
        }
    }

    /// The state after a sequence of events, first to last.
    pub open spec fn run(self, trace: Seq<Event<J>>) -> Self
        decreases trace.len(),
    {
        if trace.len() == 0 {
            self
        } else {
            self.run(trace.drop_last()).step(trace.last())
        }
    }

    /// Job `i` has been handed to a worker that has not yet reported it
    /// finished.
    pub open spec fn in_flight(self, i: int) -> bool {
        0 <= i < self.ledger.len() && self.ledger[i].starts > self.ledger[i].finishes
    }

    /// Job `i` has been handed to a worker exactly once, and a worker has
    /// reported it finished exactly once.
    pub open spec fn ran_once(self, i: int) -> bool {
        0 <= i < self.ledger.len() && self.ledger[i].starts == 1 && self.ledger[i].finishes == 1
    }

    /// What holds of the record of job `i`.
    pub open spec fn job_ok(self, i: int) -> bool {
        let r = self.ledger[i];
        if i < self.cursor() {
            &&& r.starts == 1
            &&& r.finishes <= 1
            &&& r.worker matches Some(w) && self.is_worker(w) && (r.finishes == 0
                ==> self.workers[w].job == Some(i))
        } else {
            r.starts == 0 && r.finishes == 0 && r.worker is None
        }
    }

    /// What holds of worker `w`.
    pub open spec fn worker_ok(self, w: int) -> bool {
        let k = self.workers[w];
        match k.state {
            WorkerState::Running => k.job is None,
            WorkerState::Executing => {
                &&& k.job matches Some(j) && 0 <= j < self.cursor() && self.ledger[j].finishes == 0
                    && self.ledger[j].worker == Some(w)
            },
            WorkerState::Terminating | WorkerState::Joined => {
                k.job is None && !self.accepting && self.pending.len() == 0
            },
        }
    }

    /// The invariant of the pool: it holds of a fresh pool and every event
    /// preserves it.
    pub open spec fn inv(self) -> bool {
        &&& self.workers.len() > 0
        &&& self.ledger.len() == self.accepted.len()
        &&& self.pending.len() <= self.accepted.len()
        &&& self.pending == self.accepted.skip(self.cursor())
        &&& forall|i: int| 0 <= i < self.ledger.len() ==> #[trigger] self.job_ok(i)
        &&& forall|w: int| 0 <= w < self.workers.len() ==> #[trigger] self.worker_ok(w)
    }
}

} // verus!
