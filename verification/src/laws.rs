//! What holds of every pool, proved over the model.
use crate::model::{Dispatch, Event, PoolModel, WorkerModel, WorkerState};
use vstd::prelude::*;

verus! {

/// A pool created with a positive number of workers has exactly that many,
/// all idle, accepts jobs, has nothing queued, and meets the invariant.
pub proof fn law_fresh_pool<J>(size: nat)
    requires
        size > 0,
    ensures
        PoolModel::<J>::fresh(size).inv(),
        PoolModel::<J>::fresh(size).workers.len() == size,
        PoolModel::<J>::fresh(size).accepting,
        PoolModel::<J>::fresh(size).pending.len() == 0,
        PoolModel::<J>::fresh(size).accepted.len() == 0,
        forall|w: int|
            0 <= w < size ==> PoolModel::<J>::fresh(size).worker_in(w, WorkerState::Running),
{
    let m = PoolModel::<J>::fresh(size);
    assert(m.pending =~= m.accepted.skip(m.cursor()));
    assert forall|w: int| 0 <= w < m.workers.len() implies #[trigger] m.worker_ok(w) by {}
}

/// Submitting a job preserves the invariant.
pub proof fn law_submit_preserves_inv<J>(m: PoolModel<J>, job: J)
    requires
        m.inv(),
    ensures
        m.submit(job).inv(),
{
    let n = m.submit(job);
    if m.accepting {
        assert(n.cursor() == m.cursor());
        assert(n.pending =~= n.accepted.skip(n.cursor()));
        assert forall|i: int| 0 <= i < n.ledger.len() implies #[trigger] n.job_ok(i) by {
            if i < m.ledger.len() {
                assert(m.job_ok(i));
            }
        }
        assert forall|w: int| 0 <= w < n.workers.len() implies #[trigger] n.worker_ok(w) by {
            assert(m.worker_ok(w));
        }
    }
}

/// Beginning shutdown preserves the invariant.
pub proof fn law_close_preserves_inv<J>(m: PoolModel<J>)
    requires
        m.inv(),
    ensures
        m.close().inv(),
{
    let n = m.close();
    assert forall|i: int| 0 <= i < n.ledger.len() implies #[trigger] n.job_ok(i) by {
        assert(m.job_ok(i));
    }
    assert forall|w: int| 0 <= w < n.workers.len() implies #[trigger] n.worker_ok(w) by {
        assert(m.worker_ok(w));
    }
}

/// A worker's request for work preserves the invariant.
pub proof fn law_dequeue_preserves_inv<J>(m: PoolModel<J>, w: int)
    requires
        m.inv(),
    ensures
        m.dequeue(w).inv(),
{
    let n = m.dequeue(w);
    if m.worker_in(w, WorkerState::Running) {
        assert(m.worker_ok(w));
        if m.pending.len() > 0 {
            let j = m.cursor();
            assert(n.cursor() == j + 1);
            assert(n.pending =~= n.accepted.skip(n.cursor()));
            assert(m.job_ok(j));
            assert forall|i: int| 0 <= i < n.ledger.len() implies #[trigger] n.job_ok(i) by {
                assert(m.job_ok(i));
                if i < j {
                    let v = m.ledger[i].worker->0;
                    assert(m.worker_ok(v));
                }
            }
            assert forall|v: int| 0 <= v < n.workers.len() implies #[trigger] n.worker_ok(v) by {
                assert(m.worker_ok(v));
            }
        } else if !m.accepting {
            assert forall|i: int| 0 <= i < n.ledger.len() implies #[trigger] n.job_ok(i) by {
                assert(m.job_ok(i));
                if i < m.cursor() {
                    let v = m.ledger[i].worker->0;
                    assert(m.worker_ok(v));
                }
            }
            assert forall|v: int| 0 <= v < n.workers.len() implies #[trigger] n.worker_ok(v) by {
                assert(m.worker_ok(v));
            }
        }
    }
}

/// A worker's report that its job is over preserves the invariant.
pub proof fn law_finish_preserves_inv<J>(m: PoolModel<J>, w: int)
    requires
        m.inv(),
    ensures
        m.finish(w).inv(),
{
    let n = m.finish(w);
    if m.worker_in(w, WorkerState::Executing) && m.workers[w].job is Some {
        let j = m.workers[w].job->0;
        assert(m.worker_ok(w));
        assert(m.job_ok(j));
        assert(n.cursor() == m.cursor());
        assert forall|i: int| 0 <= i < n.ledger.len() implies #[trigger] n.job_ok(i) by {
            assert(m.job_ok(i));
            if i < m.cursor() && i != j {
                let v = m.ledger[i].worker->0;
                assert(m.worker_ok(v));
            }
        }
        assert forall|v: int| 0 <= v < n.workers.len() implies #[trigger] n.worker_ok(v) by {
            assert(m.worker_ok(v));
        }
    }
}

/// Joining a worker preserves the invariant.
pub proof fn law_join_preserves_inv<J>(m: PoolModel<J>, w: int)
    requires
        m.inv(),
    ensures
        m.join(w).inv(),
{
    let n = m.join(w);
    if m.worker_in(w, WorkerState::Terminating) {
        assert(m.worker_ok(w));
        assert forall|i: int| 0 <= i < n.ledger.len() implies #[trigger] n.job_ok(i) by {
            assert(m.job_ok(i));
            if i < m.cursor() {
                let v = m.ledger[i].worker->0;
                assert(m.worker_ok(v));
            }
        }
        assert forall|v: int| 0 <= v < n.workers.len() implies #[trigger] n.worker_ok(v) by {
            assert(m.worker_ok(v));
        }
    }
}

/// Every event preserves the invariant.
pub proof fn law_step_preserves_inv<J>(m: PoolModel<J>, e: Event<J>)
    requires
        m.inv(),
    ensures
        m.step(e).inv(),
{
    match e {
        Event::Submit(job) => law_submit_preserves_inv(m, job),
        Event::Close => law_close_preserves_inv(m),
        Event::Dequeue(w) => law_dequeue_preserves_inv(m, w),
        Event::Finish(w) => law_finish_preserves_inv(m, w),
        Event::Join(w) => law_join_preserves_inv(m, w),
    }
}

/// Every sequence of events preserves the invariant: it holds in every state
/// that a pool can reach.
pub proof fn law_run_preserves_inv<J>(m: PoolModel<J>, trace: Seq<Event<J>>)
    requires
        m.inv(),
    ensures
        m.run(trace).inv(),
    decreases trace.len(),
{
    if trace.len() > 0 {
        law_run_preserves_inv(m, trace.drop_last());
        law_step_preserves_inv(m.run(trace.drop_last()), trace.last());
    }
}

/// Once every worker has been joined nothing is queued, no worker holds a
/// job, and every job that was ever accepted has been handed to a worker
/// exactly once and reported finished exactly once.
pub proof fn law_shutdown_drains<J>(m: PoolModel<J>)
    requires
        m.inv(),
        m.terminated(),
    ensures
        !m.accepting,
        m.pending.len() == 0,
        forall|i: int| 0 <= i < m.accepted.len() ==> #[trigger] m.ran_once(i),
        forall|i: int| !m.in_flight(i),
{
    assert(m.workers[0].state == WorkerState::Joined);
    assert(m.worker_ok(0));
    assert forall|i: int| 0 <= i < m.accepted.len() implies #[trigger] m.ran_once(i) by {
        assert(m.job_ok(i));
        let w = m.ledger[i].worker->0;
        assert(m.workers[w].state == WorkerState::Joined);
        assert(m.worker_ok(w));
    }
    assert forall|i: int| !m.in_flight(i) by {
        if 0 <= i < m.ledger.len() {
            assert(m.ran_once(i));
        }
    }
}

/// No job is ever handed out twice, and none is reported finished more often
/// than it was handed out.
pub proof fn law_at_most_once<J>(m: PoolModel<J>, i: int)
    requires
        m.inv(),
        0 <= i < m.accepted.len(),
    ensures
        m.ledger[i].finishes <= m.ledger[i].starts <= 1,
        m.ledger[i].starts == 1 <==> i < m.cursor(),
{
    assert(m.job_ok(i));
}

/// Jobs leave the queue in the order in which they were accepted: the job
/// handed to a worker is the oldest one that no worker has had, and after it
/// the next oldest is at the head.
pub proof fn law_first_in_first_out<J>(m: PoolModel<J>, w: int)
    requires
        m.inv(),
        m.worker_in(w, WorkerState::Running),
        m.pending.len() > 0,
    ensures
        m.handed(w) == Some(Dispatch::Run(m.accepted[m.cursor()])),
        m.dequeue(w).cursor() == m.cursor() + 1,
        m.dequeue(w).in_flight(m.cursor()),
        m.dequeue(w).ledger[m.cursor()].worker == Some(w),
        m.dequeue(w).accepted == m.accepted,
{
    assert(m.pending[0] == m.accepted.skip(m.cursor())[0]);
    assert(m.job_ok(m.cursor()));
}

/// A job in flight is in the hands of exactly one worker, that worker is
/// executing, and two jobs in flight are in different hands: no more jobs run
/// at once than the pool has workers.
pub proof fn law_width_caps_concurrency<J>(m: PoolModel<J>, i: int, j: int)
    requires
        m.inv(),
        m.in_flight(i),
        m.in_flight(j),
    ensures
        m.ledger[i].worker matches Some(w) && m.worker_in(w, WorkerState::Executing)
            && m.workers[w].job == Some(i),
        i != j ==> m.ledger[i].worker != m.ledger[j].worker,
{
    assert(m.job_ok(i));
    assert(m.job_ok(j));
    assert(m.worker_ok(m.ledger[i].worker->0));
    assert(m.worker_ok(m.ledger[j].worker->0));
}

/// With a single worker, a job is handed out only after every job accepted
/// before it has finished.
pub proof fn law_single_worker_serializes<J>(m: PoolModel<J>, w: int)
    requires
        m.inv(),
        m.workers.len() == 1,
        m.handed(w) is Some,
        m.handed(w)->0 is Run,
    ensures
        forall|i: int| 0 <= i < m.cursor() ==> #[trigger] m.ran_once(i),
        m.dequeue(w).in_flight(m.cursor()),
{
    assert(w == 0);
    assert(m.worker_ok(0));
    assert forall|i: int| 0 <= i < m.cursor() implies #[trigger] m.ran_once(i) by {
        assert(m.job_ok(i));
    }
    assert(m.job_ok(m.cursor()));
}

/// A closed pool refuses every job: submitting changes nothing.
pub proof fn law_closed_pool_refuses<J>(m: PoolModel<J>, job: J)
    ensures
        !m.accepting ==> m.submit(job) == m,
        m.close().submit(job) == m.close(),
        m.close().close() == m.close(),
{
}

/// Shutdown cannot be undone: whatever happens to a closed pool, it stays
/// closed and accepts no further job.
pub proof fn law_closed_stays_closed<J>(m: PoolModel<J>, trace: Seq<Event<J>>)
    requires
        !m.accepting,
    ensures
        !m.run(trace).accepting,
        m.run(trace).accepted == m.accepted,
    decreases trace.len(),
{
    if trace.len() > 0 {
        law_closed_stays_closed(m, trace.drop_last());
    }
}

/// While the pool accepts jobs every submitted job is accepted, whatever the
/// producers' submissions are interleaved with: the accepted jobs grow by
/// exactly the submitted ones, in the order of submission.
pub proof fn law_no_job_is_lost<J>(m: PoolModel<J>, trace: Seq<Event<J>>)
    requires
        m.accepting,
        Event::none_closes(trace),
    ensures
        m.run(trace).accepting,
        m.run(trace).accepted == m.accepted + Event::submitted(trace),
    decreases trace.len(),
{
    if trace.len() == 0 {
        assert(m.accepted + Event::submitted(trace) =~= m.accepted);
    } else {
        let before = trace.drop_last();
        assert(Event::none_closes(before)) by {
            assert forall|k: int| 0 <= k < before.len() implies !(#[trigger] before[k] is Close) by {
                assert(before[k] == trace[k]);
            }
        }
        law_no_job_is_lost(m, before);
        assert(!(trace[trace.len() - 1] is Close));
        let n = m.run(before);
        match trace.last() {
            Event::Submit(job) => {
                assert(n.submit(job).accepted =~= m.accepted + Event::submitted(before).push(job));
            },
            _ => {},
        }
    }
}

/// The width of a pool is fixed when it is created: no event adds a worker
/// or takes one away.
pub proof fn law_width_is_fixed<J>(m: PoolModel<J>, trace: Seq<Event<J>>)
    ensures
        m.run(trace).workers.len() == m.workers.len(),
    decreases trace.len(),
{
    if trace.len() > 0 {
        law_width_is_fixed(m, trace.drop_last());
    }
}

/// What has been accepted stays accepted: no event takes a job out of the
/// history or changes its place.
pub proof fn law_history_only_grows<J>(m: PoolModel<J>, trace: Seq<Event<J>>)
    ensures
        m.accepted.is_prefix_of(m.run(trace).accepted),
    decreases trace.len(),
{
    if trace.len() > 0 {
        law_history_only_grows(m, trace.drop_last());
    }
}

/// Shutdown is a barrier. Take a pool in any state it can be in, and let
/// anything happen to it: if at the end every worker has been joined, then
/// every job that had been accepted at the start, queued or in flight, has
/// been executed exactly once.
pub proof fn law_shutdown_is_a_barrier<J>(m: PoolModel<J>, trace: Seq<Event<J>>, i: int)
    requires
        m.inv(),
        m.run(trace).terminated(),
        0 <= i < m.accepted.len(),
    ensures
        m.run(trace).ran_once(i),
        m.run(trace).accepted[i] == m.accepted[i],
{
    law_run_preserves_inv(m, trace);
    law_history_only_grows(m, trace);
    law_shutdown_drains(m.run(trace));
}

/// Every job submitted to a new pool before shutdown begins is executed
/// exactly once by the time shutdown is over, and nothing is left queued.
pub proof fn law_every_job_runs_once<J>(
    size: nat,
    submissions: Seq<Event<J>>,
    rest: Seq<Event<J>>,
    i: int,
)
    requires
        size > 0,
        Event::none_closes(submissions),
        PoolModel::<J>::fresh(size).run(submissions).run(rest).terminated(),
        0 <= i < Event::submitted(submissions).len(),
    ensures
        PoolModel::<J>::fresh(size).run(submissions).run(rest).ran_once(i),
        PoolModel::<J>::fresh(size).run(submissions).run(rest).accepted[i] == Event::submitted(
            submissions,
        )[i],
        PoolModel::<J>::fresh(size).run(submissions).run(rest).pending.len() == 0,
{
    let start = PoolModel::<J>::fresh(size);
    law_fresh_pool::<J>(size);
    law_no_job_is_lost(start, submissions);
    law_run_preserves_inv(start, submissions);
    let open = start.run(submissions);
    assert(open.accepted =~= Event::submitted(submissions));
    law_shutdown_is_a_barrier(open, rest, i);
    law_run_preserves_inv(open, rest);
    law_shutdown_drains(open.run(rest));
}

/// The numbers below `n` that meet `keep`, as a list: it holds exactly those
/// numbers, in ascending order.
proof fn lemma_kept_numbers(n: nat, keep: spec_fn(int) -> bool, kept: Seq<int>)
    requires
        kept == Seq::new(n, |i: int| i).filter(keep),
    ensures
        forall|w: int| #[trigger] kept.contains(w) <==> 0 <= w < n && keep(w),
        forall|a: int, b: int| 0 <= a < b < kept.len() ==> kept[a] < kept[b],
    decreases n,
{
    let all = Seq::new(n, |i: int| i);
    reveal(Seq::filter);
    if n > 0 {
        let fewer = Seq::new((n - 1) as nat, |i: int| i);
        let before = fewer.filter(keep);
        assert(all.drop_last() =~= fewer);
        lemma_kept_numbers((n - 1) as nat, keep, before);
        if keep(n - 1) {
            assert(kept == before.push(n - 1));
            assert forall|w: int| #[trigger] kept.contains(w) <==> 0 <= w < n && keep(w) by {
                if kept.contains(w) {
                    let k = choose|k: int| 0 <= k < kept.len() && kept[k] == w;
                    if k < before.len() {
                        assert(before[k] == w);
                        assert(before.contains(w));
                    }
                }
                if 0 <= w < n && keep(w) {
                    if w == n - 1 {
                        assert(kept[kept.len() - 1] == w);
                    } else {
                        assert(before.contains(w));
                        let k = choose|k: int| 0 <= k < before.len() && before[k] == w;
                        assert(kept[k] == w);
                    }
                }
            }
            assert forall|a: int, b: int| 0 <= a < b < kept.len() implies kept[a] < kept[b] by {
                assert(before.contains(before[a]));
            }
        } else {
            assert(kept == before);
        }
    }
}

/// The list that a shutdown returns holds exactly the workers that have not
/// been joined, each once, in ascending order of their ids.
pub proof fn law_unjoined_lists_the_rest<J>(m: PoolModel<J>)
    ensures
        forall|w: int|
            #[trigger] m.unjoined().contains(w) <==> m.is_worker(w) && m.workers[w].state
                != WorkerState::Joined,
        forall|a: int, b: int|
            0 <= a < b < m.unjoined().len() ==> m.unjoined()[a] < m.unjoined()[b],
        m.terminated() <==> m.unjoined().len() == 0,
{
    let keep = |w: int| m.workers[w].state != WorkerState::Joined;
    lemma_kept_numbers(m.workers.len(), keep, m.unjoined());
    if m.unjoined().len() > 0 {
        assert(m.unjoined().contains(m.unjoined()[0]));
    }
    if !m.terminated() {
        let w = choose|w: int| m.is_worker(w) && (#[trigger] m.workers[w]).state != WorkerState::Joined;
        assert(m.unjoined().contains(w));
    }
}

/// Running a sequence of events is running its first event, then the rest.
proof fn lemma_run_first_then_rest<J>(m: PoolModel<J>, e: Event<J>, rest: Seq<Event<J>>)
    ensures
        m.run(seq![e] + rest) == m.step(e).run(rest),
    decreases rest.len(),
{
    let trace = seq![e] + rest;
    if rest.len() == 0 {
        assert(trace.drop_last() =~= Seq::<Event<J>>::empty());
        assert(m.run(trace.drop_last()) == m);
    } else {
        assert(trace.drop_last() =~= seq![e] + rest.drop_last());
        lemma_run_first_then_rest(m, e, rest.drop_last());
    }
}

/// How many steps a worker in state `s` is away from being joined, on a
/// closed pool with an empty queue.
spec fn steps_left(s: WorkerState) -> nat {
    match s {
        WorkerState::Executing => 3,
        WorkerState::Running => 2,
        WorkerState::Terminating => 1,
        WorkerState::Joined => 0,
    }
}

spec fn steps_left_of_all(workers: Seq<WorkerModel>) -> nat
    decreases workers.len(),
{
    if workers.len() == 0 {
        0
    } else {
        steps_left_of_all(workers.drop_last()) + steps_left(workers.last().state)
    }
}

/// A bound on the number of steps that a closed pool is away from the end
/// of its shutdown.
spec fn work_left<J>(m: PoolModel<J>) -> nat {
    2 * m.pending.len() + steps_left_of_all(m.workers)
}

proof fn lemma_steps_left_after_update(workers: Seq<WorkerModel>, w: int, to: WorkerModel)
    requires
        0 <= w < workers.len(),
    ensures
        steps_left_of_all(workers.update(w, to)) + steps_left(workers[w].state)
            == steps_left_of_all(workers) + steps_left(to.state),
    decreases workers.len(),
{
    let updated = workers.update(w, to);
    if w == workers.len() - 1 {
        assert(updated.drop_last() =~= workers.drop_last());
    } else {
        assert(updated.drop_last() =~= workers.drop_last().update(w, to));
        lemma_steps_left_after_update(workers.drop_last(), w, to);
    }
}

/// Steps of the workers that take a closed pool to the end of its shutdown.
proof fn lemma_drain<J>(m: PoolModel<J>) -> (trace: Seq<Event<J>>)
    requires
        m.inv(),
        !m.accepting,
    ensures
        m.run(trace).terminated(),
        forall|k: int|
            0 <= k < trace.len() ==> (#[trigger] trace[k] is Dequeue || trace[k] is Finish
                || trace[k] is Join),
    decreases work_left(m),
{
    if m.terminated() {
        Seq::empty()
    } else {
        let w = choose|w: int| m.is_worker(w) && (#[trigger] m.workers[w]).state != WorkerState::Joined;
        assert(m.worker_ok(w));
        let e = match m.workers[w].state {
            WorkerState::Executing => Event::Finish(w),
            WorkerState::Running => Event::Dequeue(w),
            _ => Event::Join(w),
        };
        let next = m.step(e);
        law_step_preserves_inv(m, e);
        lemma_steps_left_after_update(m.workers, w, next.workers[w]);
        assert(next.workers =~= m.workers.update(w, next.workers[w]));
        assert(work_left(next) < work_left(m));
        let rest = lemma_drain(next);
        let trace = seq![e] + rest;
        lemma_run_first_then_rest(m, e, rest);
        assert forall|k: int| 0 <= k < trace.len() implies (#[trigger] trace[k] is Dequeue
            || trace[k] is Finish || trace[k] is Join) by {
            if k > 0 {
                assert(trace[k] == rest[k - 1]);
            }
        }
        trace
    }
}

/// Shutdown always comes to an end. From any state that a closed pool can be
/// in, the workers' own steps (finish the job in hand, ask for work, be
/// joined) lead to the state in which every worker has been joined: the
/// queue is still drainable, and no worker is left waiting for ever.
pub proof fn law_shutdown_can_finish<J>(m: PoolModel<J>) -> (trace: Seq<Event<J>>)
    requires
        m.inv(),
        !m.accepting,
    ensures
        m.run(trace).terminated(),
        forall|k: int|
            0 <= k < trace.len() ==> (#[trigger] trace[k] is Dequeue || trace[k] is Finish
                || trace[k] is Join),
{
    lemma_drain(m)
}

} // verus!
