//! The pool itself.
use crate::error::PoolError;
use crate::laws::{
    law_close_preserves_inv, law_dequeue_preserves_inv, law_finish_preserves_inv, law_fresh_pool,
    law_join_preserves_inv, law_submit_preserves_inv,
};
use crate::model::{Dispatch, JobRecord, PoolModel, WorkerModel, WorkerState};
use std::collections::VecDeque;
use vstd::prelude::*;

verus! {

/// One worker: its id and where it stands in its life cycle.
#[derive(Clone, Copy)]
struct Worker {
    id: usize,
    state: WorkerState,
    job: Ghost<Option<int>>,
}

impl Worker {
    spec fn model(self) -> WorkerModel {
        WorkerModel { state: self.state, job: self.job@ }
    }

    /// An idle worker with the given id.
    fn new(id: usize) -> (worker: Worker)
        ensures
            worker.id == id,
            worker.model() == (WorkerModel { state: WorkerState::Running, job: None }),
    {
        Worker { id, state: WorkerState::Running, job: Ghost(None) }
    }
}

/// A fixed set of workers that share one first-in first-out queue of jobs.
///
/// `J` is the job: the pool carries it from the producer to the worker that
/// dequeues it and never looks inside.
pub struct ThreadPool<J> {
    number_of_threads: usize,
    threads: Vec<Worker>,
    queue: VecDeque<J>,
    accepting: bool,
    accepted: Ghost<Seq<J>>,
    ledger: Ghost<Seq<JobRecord>>,
}

impl<J> View for ThreadPool<J> {
    type V = PoolModel<J>;

    closed spec fn view(&self) -> PoolModel<J> {
        PoolModel {
            accepting: self.accepting,
            pending: self.queue@,
            workers: Seq::new(self.threads@.len(), |w: int| self.threads@[w].model()),
            accepted: self.accepted@,
            ledger: self.ledger@,
        }
    }
}

impl<J> ThreadPool<J> {
    /// The fields agree with each other: the recorded width is the number of
    /// workers, and each worker sits at the position of its id.
    pub closed spec fn coherent(&self) -> bool {
        &&& self.number_of_threads == self.threads@.len()
        &&& forall|w: int| 0 <= w < self.threads@.len() ==> (#[trigger] self.threads@[w]).id == w
    }

    /// The pool is well formed: its fields agree and its model meets the
    /// invariant.
    pub open spec fn wf(&self) -> bool {
        self.coherent() && self@.inv()
    }

    /// Creates a pool of `number_of_threads` idle workers with an empty, open
    /// queue. A pool without workers is refused.
    pub fn new(number_of_threads: usize) -> (r: Result<ThreadPool<J>, PoolError>)
        ensures
            match r {
                Ok(pool) => {
                    &&& number_of_threads > 0
                    &&& pool.wf()
                    &&& pool@ == PoolModel::<J>::fresh(number_of_threads as nat)
                },
                Err(e) => number_of_threads == 0 && e == PoolError::InvalidConfiguration,
            },
    {
        if number_of_threads == 0 {
            return Err(PoolError::InvalidConfiguration);
        }
        let mut threads: Vec<Worker> = Vec::new();
        let mut id: usize = 0;
        while id < number_of_threads
            invariant
                id <= number_of_threads,
                threads@.len() == id,
                forall|w: int|
                    0 <= w < id ==> (#[trigger] threads@[w]).id == w && threads@[w].model() == (
                    WorkerModel { state: WorkerState::Running, job: None }),
            decreases number_of_threads - id,
        {
            threads.push(Worker::new(id));
            id += 1;
        }
        let pool = ThreadPool {
            number_of_threads,
            threads,
            queue: VecDeque::new(),
            accepting: true,
            accepted: Ghost(Seq::empty()),
            ledger: Ghost(Seq::empty()),
        };
        proof {
            law_fresh_pool::<J>(number_of_threads as nat);
            assert(pool@ =~= PoolModel::<J>::fresh(number_of_threads as nat));
        }
        Ok(pool)
    }

    /// The number of workers, fixed when the pool was created.
    pub fn number_of_threads(&self) -> (n: usize)
        requires
            self.wf(),
        ensures
            n == self@.workers.len(),
            n > 0,
    {
        self.number_of_threads
    }

    /// Submits a job. While the pool accepts jobs the job goes to the back of
    /// the queue; once shutdown has begun it is refused and nothing changes.
    pub fn execute(&mut self, job: J) -> (r: Result<(), PoolError>)
        requires
            old(self).wf(),
        ensures
            final(self).wf(),
            final(self)@ == old(self)@.submit(job),
            old(self)@.accepting ==> r is Ok,
            !old(self)@.accepting ==> r == Err::<(), PoolError>(PoolError::PoolClosed),
    {
        if !self.accepting {
            return Err(PoolError::PoolClosed);
        }
        proof {
            law_submit_preserves_inv(self@, job);
        }
        self.accepted = Ghost(self.accepted@.push(job));
        self.ledger = Ghost(self.ledger@.push(JobRecord { starts: 0, finishes: 0, worker: None }));
        self.queue.push_back(job);
        assert(self@ =~= old(self)@.submit(job));
        Ok(())
    }

    /// Begins shutdown: the pool stops accepting jobs, and what is queued
    /// stays queued for the workers to drain. Returns the ids of the workers
    /// whose threads have still to be waited for, ascending. On a pool that
    /// is already closed only the list is computed.
    pub fn shutdown(&mut self) -> (ids: Vec<usize>)
        requires
            old(self).wf(),
        ensures
            final(self).wf(),
            final(self)@ == old(self)@.close(),
            ids@.map_values(|w: usize| w as int) == old(self)@.unjoined(),
    {
        proof {
            law_close_preserves_inv(self@);
        }
        self.accepting = false;
        assert(self@ =~= old(self)@.close());
        let ghost all = Seq::new(self.threads@.len(), |w: int| w);
        let ghost alive = |w: int| self@.workers[w].state != WorkerState::Joined;
        let mut ids: Vec<usize> = Vec::new();
        let mut id: usize = 0;
        assert(all.take(0).filter(alive) =~= Seq::<int>::empty());
        while id < self.threads.len()
            invariant
                id <= self.threads@.len(),
                all == Seq::new(self.threads@.len(), |w: int| w),
                alive == |w: int| self@.workers[w].state != WorkerState::Joined,
                ids@.map_values(|w: usize| w as int) == all.take(id as int).filter(alive),
            decreases self.threads@.len() - id,
        {
            proof {
                let next = all.take(id + 1);
                assert(next.drop_last() =~= all.take(id as int));
                assert(next.last() == id);
                reveal(Seq::filter);
            }
            let ghost before = ids@.map_values(|w: usize| w as int);
            match self.threads[id].state {
                WorkerState::Joined => {},
                _ => {
                    ids.push(id);
                    assert(ids@.map_values(|w: usize| w as int) =~= before.push(id as int));
                },
            }
            id += 1;
        }
        assert(all.take(id as int) =~= all);
        ids
    }

    /// Worker `id` asks for work. An idle worker is handed the oldest queued
    /// job and is then executing; with nothing queued it is told to wait
    /// while the pool accepts jobs, and to leave once shutdown has begun.
    /// `None`, and no change, when `id` names no worker or a worker that is
    /// not idle.
    pub fn dequeue(&mut self, id: usize) -> (r: Option<Dispatch<J>>)
        requires
            old(self).wf(),
        ensures
            final(self).wf(),
            final(self)@ == old(self)@.dequeue(id as int),
            r == old(self)@.handed(id as int),
    {
        if id >= self.threads.len() {
            return None;
        }
        match self.threads[id].state {
            WorkerState::Running => {},
            _ => {
                return None;
            },
        }
        proof {
            law_dequeue_preserves_inv(self@, id as int);
        }
        match self.queue.pop_front() {
            Some(job) => {
                let ghost j = old(self)@.cursor();
                let ghost record = JobRecord {
                    starts: old(self)@.ledger[j].starts + 1,
                    finishes: old(self)@.ledger[j].finishes,
                    worker: Some(id as int),
                };
                self.threads.set(
                    id,
                    Worker { id, state: WorkerState::Executing, job: Ghost(Some(j)) },
                );
                self.ledger = Ghost(self.ledger@.update(j, record));
                assert(self@ =~= old(self)@.dequeue(id as int));
                Some(Dispatch::Run(job))
            },
            None => {
                if self.accepting {
                    Some(Dispatch::Wait)
                } else {
                    self.threads.set(
                        id,
                        Worker { id, state: WorkerState::Terminating, job: Ghost(None) },
                    );
                    assert(self@ =~= old(self)@.dequeue(id as int));
                    Some(Dispatch::Exit)
                }
            },
        }
    }

    /// Worker `id` reports that the job in its hands is over. Whether the job
    /// ended well or faulted, the worker is idle again and stays in rotation;
    /// a fault is reported as `JobFault`. When `id` names no worker, or a
    /// worker that holds no job, nothing changes and nothing is reported.
    pub fn finish(&mut self, id: usize, faulted: bool) -> (r: Result<(), PoolError>)
        requires
            old(self).wf(),
        ensures
            final(self).wf(),
            final(self)@ == old(self)@.finish(id as int),
            r == if faulted && old(self)@.worker_in(id as int, WorkerState::Executing) {
                Err::<(), PoolError>(PoolError::JobFault)
            } else {
                Ok::<(), PoolError>(())
            },
    {
        if id >= self.threads.len() {
            return Ok(());
        }
        let worker = self.threads[id];
        match worker.state {
            WorkerState::Executing => {},
            _ => {
                return Ok(());
            },
        }
        proof {
            assert(self@.worker_ok(id as int));
            law_finish_preserves_inv(self@, id as int);
        }
        let ghost j = worker.job@->0;
        let ghost record = JobRecord {
            starts: self@.ledger[j].starts,
            finishes: self@.ledger[j].finishes + 1,
            worker: self@.ledger[j].worker,
        };
        self.threads.set(id, Worker { id, state: WorkerState::Running, job: Ghost(None) });
        self.ledger = Ghost(self.ledger@.update(j, record));
        assert(self@ =~= old(self)@.finish(id as int));
        if faulted {
            Err(PoolError::JobFault)
        } else {
            Ok(())
        }
    }

    /// Records that the thread of worker `id` has been waited for. Only a
    /// worker that is leaving can be joined: the result says whether this one
    /// was, and otherwise nothing changes.
    pub fn join(&mut self, id: usize) -> (joined: bool)
        requires
            old(self).wf(),
        ensures
            final(self).wf(),
            final(self)@ == old(self)@.join(id as int),
            joined == old(self)@.worker_in(id as int, WorkerState::Terminating),
    {
        if id >= self.threads.len() {
            return false;
        }
        match self.threads[id].state {
            WorkerState::Terminating => {},
            _ => {
                return false;
            },
        }
        proof {
            law_join_preserves_inv(self@, id as int);
        }
        self.threads.set(id, Worker { id, state: WorkerState::Joined, job: Ghost(None) });
        assert(self@ =~= old(self)@.join(id as int));
        true
    }

    /// Whether the pool still accepts jobs.
    pub fn is_accepting(&self) -> (accepting: bool)
        ensures
            accepting == self@.accepting,
    {
        self.accepting
    }

    /// The number of jobs that wait in the queue.
    pub fn pending(&self) -> (n: usize)
        ensures
            n == self@.pending.len(),
    {
        self.queue.len()
    }

    /// The state of worker `id`, or `None` when `id` names no worker.
    pub fn worker_state(&self, id: usize) -> (state: Option<WorkerState>)
        ensures
            state == if self@.is_worker(id as int) {
                Some(self@.workers[id as int].state)
            } else {
                None
            },
    {
        if id < self.threads.len() {
            Some(self.threads[id].state)
        } else {
            None
        }
    }

    /// Whether every worker has been joined, that is, whether shutdown is
    /// over.
    pub fn is_terminated(&self) -> (done: bool)
        ensures
            done == self@.terminated(),
    {
        let mut id: usize = 0;
        while id < self.threads.len()
            invariant
                id <= self.threads@.len(),
                forall|w: int|
                    0 <= w < id ==> (#[trigger] self@.workers[w]).state == WorkerState::Joined,
            decreases self.threads@.len() - id,
        {
            match self.threads[id].state {
                WorkerState::Joined => {},
                _ => {
                    assert(self@.workers[id as int].state != WorkerState::Joined);
                    return false;
                },
            }
            id += 1;
        }
        true
    }
}

} // verus!
