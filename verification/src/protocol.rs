//! The pool, its channel and its workers taken together: a model of every
//! run, and what holds of all of them.
//!
//! The model moves by events: a caller submits a job, the pool takes a
//! shutdown step, a worker takes the oldest message from the channel, a
//! worker's job returns. Events of different callers and workers may come in
//! any order; the channel is a queue, so messages leave in the order in which
//! they came. Jobs that run forever or fail are left out of the model.

use crate::channel::{head_of, rest_of, Received};
use crate::message::Message;
use crate::pool::{step_at, Step};
use crate::worker::{action_for, state_after, Action, WorkerState};
use vstd::prelude::*;

verus! {

/// The state of a pool and all that belongs to it.
pub struct System<J> {
    /// The number of workers.
    pub size: nat,
    /// The number of shutdown steps that the pool has taken.
    pub progress: nat,
    /// The channel, oldest message first.
    pub queue: Seq<Message<J>>,
    /// The state of each worker, by identity.
    pub states: Seq<WorkerState>,
    /// Every job accepted so far, in the order of acceptance.
    pub accepted: Seq<J>,
    /// Every job handed to a worker so far, in the order of the handing.
    pub started: Seq<J>,
    /// For each job handed to a worker, the identity of that worker.
    pub takers: Seq<nat>,
    /// The number of jobs that have returned.
    pub completed: nat,
}

/// What can happen to a pool.
pub enum Event<J> {
    /// A caller submits a job.
    Submit(J),
    /// The pool takes its next shutdown step.
    Advance,
    /// The worker with this identity takes the oldest message.
    Take(nat),
    /// The job of the worker with this identity returns.
    Finish(nat),
}

/// The number of workers in `states` that are in the state `which`.
pub open spec fn count(states: Seq<WorkerState>, which: WorkerState) -> nat
    decreases states.len(),
{
    if states.len() == 0 {
        0
    } else {
        count(states.drop_last(), which) + if states.last() == which {
            1nat
        } else {
            0nat
        }
    }
}

/// The number of stop signals sent after `progress` shutdown steps.
pub open spec fn signalled(size: nat, progress: nat) -> nat {
    if progress < size {
        progress
    } else {
        size
    }
}

/// Whether the channel still has its sender: the pool lets go of it as its
/// last shutdown step.
pub open spec fn sender_held(size: nat, progress: nat) -> bool {
    progress <= 2 * size
}

/// What a worker would get from a dequeue in `s`.
pub open spec fn dequeued<J>(s: System<J>) -> Received<J> {
    head_of(s.queue, sender_held(s.size, s.progress))
}

/// A new pool of `size` workers: all idle, nothing accepted, nothing queued.
pub open spec fn init<J>(size: nat) -> System<J> {
    System {
        size,
        progress: 0,
        queue: Seq::empty(),
        states: Seq::new(size, |i: int| WorkerState::Idle),
        accepted: Seq::empty(),
        started: Seq::empty(),
        takers: Seq::empty(),
        completed: 0,
    }
}

/// Whether `e` can happen in `s`. A job is accepted only while the pool is
/// alive; a wait for a worker returns only once that worker has stopped; a
/// worker takes from the channel only when idle, and waits while the channel
/// is empty and has its sender.
pub open spec fn enabled<J>(s: System<J>, e: Event<J>) -> bool {
    match e {
        Event::Submit(_) => s.progress == 0,
        Event::Advance => match step_at(s.size, s.progress) {
            Step::Signal => true,
            Step::Join(id) => s.states[id as int] == WorkerState::Stopped,
            Step::Release => true,
            Step::Done => false,
        },
        Event::Take(id) => id < s.size && s.states[id as int] == WorkerState::Idle && !(dequeued(
            s,
        ) is Empty),
        Event::Finish(id) => id < s.size && s.states[id as int] == WorkerState::Executing,
    }
}

/// The state after `e` happened in `s`.
pub open spec fn next<J>(s: System<J>, e: Event<J>) -> System<J> {
    match e {
        Event::Submit(job) => System {
            queue: s.queue.push(Message::NewJob(job)),
            accepted: s.accepted.push(job),
            ..s
        },
        Event::Advance => System {
            progress: s.progress + 1,
            queue: if step_at(s.size, s.progress) == Step::Signal {
                s.queue.push(Message::Terminate)
            } else {
                s.queue
            },
            ..s
        },
        Event::Take(id) => {
            let received = dequeued(s);
            let rest = System {
                queue: rest_of(s.queue),
                states: s.states.update(id as int, state_after(received)),
                ..s
            };
            match action_for(received) {
                Action::Run(job) => System {
                    started: s.started.push(job),
                    takers: s.takers.push(id),
                    ..rest
                },
                _ => rest,
            }
        },
        Event::Finish(id) => System {
            states: s.states.update(id as int, WorkerState::Idle),
            completed: s.completed + 1,
            ..s
        },
    }
}

/// The jobs that were accepted and not yet handed to a worker, as the
/// messages that carry them, oldest first.
pub open spec fn pending<J>(s: System<J>) -> Seq<Message<J>> {
    Seq::new(
        (s.accepted.len() - s.started.len()) as nat,
        |k: int| Message::NewJob(s.accepted[s.started.len() + k]),
    )
}

/// The stop signals that were sent and not yet taken.
pub open spec fn signals<J>(s: System<J>) -> Seq<Message<J>> {
    Seq::new(
        (signalled(s.size, s.progress) - count(s.states, WorkerState::Stopped)) as nat,
        |k: int| Message::Terminate,
    )
}

/// What holds of a pool in every state it can reach.
pub open spec fn inv<J>(s: System<J>) -> bool {
    &&& 0 < s.size <= usize::MAX
    &&& s.states.len() == s.size
    &&& s.progress <= 2 * s.size + 1
    &&& s.started.len() <= s.accepted.len()
    &&& s.started == s.accepted.take(s.started.len() as int)
    &&& s.takers.len() == s.started.len()
    &&& forall|k: int| 0 <= k < s.takers.len() ==> #[trigger] s.takers[k] < s.size
    &&& s.started.len() == s.completed + count(s.states, WorkerState::Executing)
    &&& count(s.states, WorkerState::Stopped) <= signalled(s.size, s.progress)
    &&& count(s.states, WorkerState::Stopped) > 0 ==> s.started.len() == s.accepted.len()
    &&& s.queue == pending(s) + signals(s)
    &&& forall|i: int|
        0 <= i < s.progress - s.size && i < s.size ==> #[trigger] s.states[i]
            == WorkerState::Stopped
}

/// What is left to happen once shutdown has begun: a bound on the number of
/// events that can still follow.
pub open spec fn work_left<J>(s: System<J>) -> int {
    2 * s.queue.len() + count(s.states, WorkerState::Executing) + 3 * (2 * s.size + 1
        - s.progress)
}

/// No state is counted more often than there are workers.
pub proof fn lemma_count_le(states: Seq<WorkerState>, which: WorkerState)
    ensures
        count(states, which) <= states.len(),
    decreases states.len(),
{
    if states.len() > 0 {
        lemma_count_le(states.drop_last(), which);
    }
}

/// Where no worker is in a state, the count of that state is 0.
pub proof fn lemma_count_none(states: Seq<WorkerState>, which: WorkerState)
    requires
        forall|i: int| 0 <= i < states.len() ==> states[i] != which,
    ensures
        count(states, which) == 0,
    decreases states.len(),
{
    if states.len() > 0 {
        lemma_count_none(states.drop_last(), which);
    }
}

/// A worker in a state is counted; one in another state leaves the count
/// below the number of workers.
pub proof fn lemma_count_at(states: Seq<WorkerState>, i: int, which: WorkerState)
    requires
        0 <= i < states.len(),
    ensures
        states[i] == which ==> count(states, which) > 0,
        states[i] != which ==> count(states, which) < states.len(),
    decreases states.len(),
{
    if i == states.len() - 1 {
        lemma_count_le(states.drop_last(), which);
    } else {
        lemma_count_at(states.drop_last(), i, which);
    }
}

/// A change of one worker's state moves the counts by that worker alone.
pub proof fn lemma_count_update(
    states: Seq<WorkerState>,
    i: int,
    to: WorkerState,
    which: WorkerState,
)
    requires
        0 <= i < states.len(),
    ensures
        count(states.update(i, to), which) + (if states[i] == which {
            1nat
        } else {
            0nat
        }) == count(states, which) + (if to == which {
            1nat
        } else {
            0nat
        }),
    decreases states.len(),
{
    let after = states.update(i, to);
    if i == states.len() - 1 {
        assert(after.drop_last() =~= states.drop_last());
    } else {
        assert(after.drop_last() =~= states.drop_last().update(i, to));
        lemma_count_update(states.drop_last(), i, to, which);
    }
}

/// A new pool is in a state that the invariant admits.
pub proof fn lemma_init_inv<J>(size: nat)
    requires
        0 < size <= usize::MAX,
    ensures
        inv(init::<J>(size)),
{
    let s = init::<J>(size);
    lemma_count_none(s.states, WorkerState::Stopped);
    lemma_count_none(s.states, WorkerState::Executing);
    assert(s.started =~= s.accepted.take(0));
    assert(s.queue =~= pending(s) + signals(s));
}

/// Every event that can happen keeps the invariant.
pub proof fn lemma_next_inv<J>(s: System<J>, e: Event<J>)
    requires
        inv(s),
        enabled(s, e),
    ensures
        inv(next(s, e)),
{
    let t = next(s, e);
    let stopped = count(s.states, WorkerState::Stopped);
    match e {
        Event::Submit(job) => {
            assert(t.started =~= t.accepted.take(t.started.len() as int));
            assert(t.queue =~= pending(t) + signals(t));
        },
        Event::Advance => {
            assert(t.queue =~= pending(t) + signals(t));
            if s.progress >= s.size && s.progress < 2 * s.size {
                let id = s.progress - s.size;
                assert(s.states[id] == WorkerState::Stopped);
            }
        },
        Event::Take(id) => {
            let received = dequeued(s);
            if s.queue.len() == 0 {
                assert(s.states[id as int] == WorkerState::Stopped);
            }
            lemma_count_update(s.states, id as int, state_after(received), WorkerState::Stopped);
            lemma_count_update(s.states, id as int, state_after(received), WorkerState::Executing);
            if s.started.len() < s.accepted.len() {
                assert(s.queue[0] == pending(s)[0]);
                assert(t.started =~= t.accepted.take(t.started.len() as int));
                assert(t.queue =~= pending(t) + signals(t));
            } else {
                assert(s.queue[0] == signals(s)[0]);
                assert(t.queue =~= pending(t) + signals(t));
            }
            assert forall|i: int| 0 <= i < t.progress - t.size && i < t.size implies #[trigger] t.states[i]
                == WorkerState::Stopped by {
                assert(s.states[i] == WorkerState::Stopped);
            }
        },
        Event::Finish(id) => {
            lemma_count_update(s.states, id as int, WorkerState::Idle, WorkerState::Stopped);
            lemma_count_update(s.states, id as int, WorkerState::Idle, WorkerState::Executing);
            assert forall|i: int| 0 <= i < t.progress - t.size && i < t.size implies #[trigger] t.states[i]
                == WorkerState::Stopped by {
                assert(s.states[i] == WorkerState::Stopped);
            }
        },
    }
}

/// Whether the events of `trace` can happen one after the other from `s` on.
pub open spec fn valid<J>(s: System<J>, trace: Seq<Event<J>>) -> bool
    decreases trace.len(),
{
    trace.len() == 0 || (enabled(s, trace[0]) && valid(next(s, trace[0]), trace.drop_first()))
}

/// The state after the events of `trace` happened one after the other from
/// `s` on.
pub open spec fn after<J>(s: System<J>, trace: Seq<Event<J>>) -> System<J>
    decreases trace.len(),
{
    if trace.len() == 0 {
        s
    } else {
        after(next(s, trace[0]), trace.drop_first())
    }
}

/// The invariant holds along every run.
pub proof fn lemma_run_inv<J>(s: System<J>, trace: Seq<Event<J>>)
    requires
        inv(s),
        valid(s, trace),
    ensures
        inv(after(s, trace)),
    decreases trace.len(),
{
    if trace.len() > 0 {
        lemma_next_inv(s, trace[0]);
        lemma_run_inv(next(s, trace[0]), trace.drop_first());
    }
}

/// Whatever callers and workers do and in whatever order, a pool that has
/// gone through its whole shutdown has run every job that it accepted: each
/// was handed to one worker, once, and has returned; the channel is empty and
/// every worker has stopped.
pub proof fn lemma_every_job_runs_once<J>(size: nat, trace: Seq<Event<J>>)
    requires
        0 < size <= usize::MAX,
        valid(init::<J>(size), trace),
        after(init::<J>(size), trace).progress > 2 * size,
    ensures
        ({
            let end = after(init::<J>(size), trace);
            &&& end.started == end.accepted
            &&& end.takers.len() == end.accepted.len()
            &&& forall|k: int| 0 <= k < end.takers.len() ==> #[trigger] end.takers[k] < size
            &&& end.completed == end.accepted.len()
            &&& end.queue.len() == 0
            &&& forall|i: int| 0 <= i < size ==> #[trigger] end.states[i] == WorkerState::Stopped
        }),
{
    lemma_init_inv::<J>(size);
    lemma_run_inv(init::<J>(size), trace);
    let end = after(init::<J>(size), trace);
    lemma_size_kept(init::<J>(size), trace);
    lemma_all_stopped_at_release(end);
}

/// The number of workers never changes.
pub proof fn lemma_size_kept<J>(s: System<J>, trace: Seq<Event<J>>)
    ensures
        after(s, trace).size == s.size,
    decreases trace.len(),
{
    if trace.len() > 0 {
        lemma_size_kept(next(s, trace[0]), trace.drop_first());
    }
}

/// Exactly once: the jobs accepted are, in their order, those handed to a
/// worker followed by those still in the channel. No job is lost, none is
/// handed out twice, each went to one worker of the pool, and the channel
/// holds nothing else but the stop signals, behind every job.
pub proof fn lemma_exactly_once<J>(s: System<J>)
    requires
        inv(s),
    ensures
        s.started.len() + pending(s).len() == s.accepted.len(),
        forall|k: int| 0 <= k < s.started.len() ==> s.started[k] == s.accepted[k],
        forall|k: int|
            0 <= k < pending(s).len() ==> #[trigger] s.queue[k] == Message::NewJob(
                s.accepted[s.started.len() + k],
            ),
        forall|k: int|
            pending(s).len() <= k < s.queue.len() ==> #[trigger] s.queue[k]
                == Message::<J>::Terminate,
        s.takers.len() == s.started.len(),
        forall|k: int| 0 <= k < s.takers.len() ==> #[trigger] s.takers[k] < s.size,
{
    assert forall|k: int| 0 <= k < s.started.len() implies s.started[k] == s.accepted[k] by {
        assert(s.accepted.take(s.started.len() as int)[k] == s.accepted[k]);
    }
}

/// Shutdown ordering: once any worker has stopped, every job that was
/// accepted has been handed to a worker. No worker leaves while a job waits.
pub proof fn lemma_no_exit_before_pending<J>(s: System<J>, id: nat)
    requires
        inv(s),
        id < s.size,
        s.states[id as int] == WorkerState::Stopped,
    ensures
        s.started == s.accepted,
        pending(s).len() == 0,
{
    lemma_count_at(s.states, id as int, WorkerState::Stopped);
    assert(s.accepted.take(s.accepted.len() as int) =~= s.accepted);
}

/// No worker outlives the pool: when the last wait has returned, every worker
/// has stopped, the channel is empty, and every job that was accepted has
/// been handed to a worker and has returned. The sender is released onto
/// nobody.
pub proof fn lemma_all_stopped_at_release<J>(s: System<J>)
    requires
        inv(s),
        s.progress >= 2 * s.size,
    ensures
        forall|i: int| 0 <= i < s.size ==> #[trigger] s.states[i] == WorkerState::Stopped,
        s.queue.len() == 0,
        s.started == s.accepted,
        s.completed == s.accepted.len(),
{
    assert(s.states[0] == WorkerState::Stopped);
    lemma_no_exit_before_pending(s, 0);
    lemma_count_stopped_all(s.states);
    lemma_count_none(s.states, WorkerState::Executing);
}

/// Where every worker has stopped, the count of the stopped is their number.
pub proof fn lemma_count_stopped_all(states: Seq<WorkerState>)
    requires
        forall|i: int| 0 <= i < states.len() ==> states[i] == WorkerState::Stopped,
    ensures
        count(states, WorkerState::Stopped) == states.len(),
    decreases states.len(),
{
    if states.len() > 0 {
        lemma_count_stopped_all(states.drop_last());
    }
}

/// No worker ever finds the channel without its sender: a worker that can
/// still dequeue gets a message or waits. Every worker leaves by a stop
/// signal.
pub proof fn lemma_no_disconnection<J>(s: System<J>, id: nat)
    requires
        inv(s),
        id < s.size,
        s.states[id as int] != WorkerState::Stopped,
    ensures
        sender_held(s.size, s.progress),
        !(dequeued(s) is Disconnected),
{
    if s.progress > 2 * s.size {
        assert(s.states[id as int] == WorkerState::Stopped);
    }
}

/// Shutdown never hangs: from its first step until the sender is released,
/// something can always happen. Either the pool can take its next step, or
/// the worker it waits for can take a message or is running a job.
pub proof fn lemma_shutdown_can_move<J>(s: System<J>) -> (e: Event<J>)
    requires
        inv(s),
        s.progress <= 2 * s.size,
    ensures
        enabled(s, e),
        !(e is Submit),
{
    if s.progress < s.size || s.progress == 2 * s.size {
        Event::Advance
    } else {
        let id = (s.progress - s.size) as nat;
        if s.states[id as int] == WorkerState::Stopped {
            Event::Advance
        } else if s.states[id as int] == WorkerState::Executing {
            Event::Finish(id)
        } else {
            lemma_count_at(s.states, id as int, WorkerState::Stopped);
            assert(signals(s).len() > 0);
            Event::Take(id)
        }
    }
}

/// Shutdown ends: once it has begun no job is accepted any more, and every
/// other event brings the end nearer.
pub proof fn lemma_shutdown_ends<J>(s: System<J>, e: Event<J>)
    requires
        inv(s),
        enabled(s, e),
        s.progress > 0,
    ensures
        !(e is Submit),
        0 <= work_left(next(s, e)) < work_left(s),
{
    lemma_next_inv(s, e);
    match e {
        Event::Submit(_) => {},
        Event::Advance => {},
        Event::Take(id) => {
            if s.queue.len() == 0 {
                assert(s.states[id as int] == WorkerState::Stopped);
            }
            lemma_count_update(
                s.states,
                id as int,
                state_after(dequeued(s)),
                WorkerState::Executing,
            );
        },
        Event::Finish(id) => {
            lemma_count_update(s.states, id as int, WorkerState::Idle, WorkerState::Executing);
        },
    }
}

} // verus!
