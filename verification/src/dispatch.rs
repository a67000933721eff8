//! A pool with its channel and its workers in one thread, moved one event at
//! a time: the protocol as it can be run, step by step, without threads.

use crate::channel::{Channel, Received};
use crate::message::Message;
use crate::pool::{step_at, Step, ThreadPool};
use crate::protocol::{
    dequeued, enabled, init, inv, lemma_init_inv, lemma_next_inv, next, sender_held, Event, System,
};
use crate::worker::{action_for, Action, WorkerState};
use vstd::prelude::*;

verus! {

/// A pool, its channel and the states of its workers. Each method is one
/// event of the protocol; the caller chooses their order, and runs the jobs
/// that are handed out.
pub struct Dispatch<J> {
    pool: ThreadPool,
    channel: Channel<J>,
    states: Vec<WorkerState>,
    accepted: Ghost<Seq<J>>,
    started: Ghost<Seq<J>>,
    takers: Ghost<Seq<nat>>,
    completed: Ghost<nat>,
}

impl<J> View for Dispatch<J> {
    type V = System<J>;

    closed spec fn view(&self) -> System<J> {
        System {
            size: self.pool.spec_size(),
            progress: self.pool.progress(),
            queue: self.channel.spec_queue(),
            states: self.states@,
            accepted: self.accepted@,
            started: self.started@,
            takers: self.takers@,
            completed: self.completed@,
        }
    }
}

impl<J> Dispatch<J> {
    /// The parts fit together: the pool is sound and has not given up, and
    /// the channel has its sender until the pool's last step.
    pub closed spec fn fits(&self) -> bool {
        &&& self.pool.wf()
        &&& !self.pool.spec_has_failed()
        &&& self.channel.spec_is_open() == sender_held(
            self.pool.spec_size(),
            self.pool.progress(),
        )
    }

    /// The invariant: the parts fit, and the state is one that a pool can
    /// reach.
    pub open spec fn wf(&self) -> bool {
        self.fits() && inv(self@)
    }

    /// A new pool of `count` idle workers with an empty channel.
    pub fn new(count: usize) -> (d: Dispatch<J>)
        requires
            count > 0,
        ensures
            d.wf(),
            d@ == init::<J>(count as nat),
    {
        let pool = ThreadPool::new(count);
        let mut states: Vec<WorkerState> = Vec::with_capacity(count);
        let mut i: usize = 0;
        while i < count
            invariant
                i <= count,
                states@.len() == i,
                forall|k: int| 0 <= k < i ==> states@[k] == WorkerState::Idle,
            decreases count - i,
        {
            states.push(WorkerState::Idle);
            i += 1;
        }
        let d = Dispatch {
            pool,
            channel: Channel::new(),
            states,
            accepted: Ghost(Seq::empty()),
            started: Ghost(Seq::empty()),
            takers: Ghost(Seq::empty()),
            completed: Ghost(0),
        };
        proof {
            assert(d@.states =~= init::<J>(count as nat).states);
            lemma_init_inv::<J>(count as nat);
        }
        d
    }

    /// A caller submits a job. While the pool is alive the job is enqueued
    /// behind all others; once shutdown has begun it comes back.
    pub fn submit(&mut self, job: J) -> (res: Result<(), J>)
        requires
            old(self).wf(),
        ensures
            final(self).wf(),
            enabled(old(self)@, Event::Submit(job)) ==> res == Ok::<(), J>(()) && final(self)@
                == next(old(self)@, Event::Submit(job)),
            !enabled(old(self)@, Event::Submit(job)) ==> res == Err::<(), J>(job) && final(self)@
                == old(self)@,
    {
        let ghost before = self@;
        let ghost submitted = job;
        match self.pool.execute(job) {
            Ok(message) => {
                let _sent = self.channel.send(message);
                self.accepted = Ghost(self.accepted@.push(submitted));
                proof {
                    lemma_next_inv(before, Event::Submit(submitted));
                }
                Ok(())
            },
            Err(job) => Err(job),
        }
    }

    /// The idle worker `id` dequeues. What it is to do comes back: run a job
    /// (and call `finish` when it returns), wait because the channel is
    /// empty, or leave.
    pub fn take(&mut self, id: usize) -> (action: Action<J>)
        requires
            old(self).wf(),
            id < old(self)@.size,
            old(self)@.states[id as int] == WorkerState::Idle,
        ensures
            final(self).wf(),
            action == action_for(dequeued(old(self)@)),
            final(self)@ == if enabled(old(self)@, Event::Take(id as nat)) {
                next(old(self)@, Event::Take(id as nat))
            } else {
                old(self)@
            },
    {
        let ghost before = self@;
        let received = self.channel.recv();
        let mut state = self.states[id];
        let action = state.receive(received);
        self.states.set(id, state);
        proof {
            match dequeued(before) {
                Received::Message(Message::NewJob(job)) => {
                    self.started@ = self.started@.push(job);
                    self.takers@ = self.takers@.push(id as nat);
                },
                _ => {},
            }
            if enabled(before, Event::Take(id as nat)) {
                lemma_next_inv(before, Event::Take(id as nat));
                assert(self@ == next(before, Event::Take(id as nat)));
            } else {
                assert(self@.states =~= before.states);
                assert(self@ == before);
            }
        }
        action
    }

    /// The job that worker `id` was running has returned.
    pub fn finish(&mut self, id: usize)
        requires
            old(self).wf(),
            enabled(old(self)@, Event::<J>::Finish(id as nat)),
        ensures
            final(self).wf(),
            final(self)@ == next(old(self)@, Event::<J>::Finish(id as nat)),
    {
        let ghost before = self@;
        let mut state = self.states[id];
        state.finish();
        self.states.set(id, state);
        proof {
            self.completed@ = self.completed@ + 1;
            lemma_next_inv(before, Event::<J>::Finish(id as nat));
        }
    }

    /// The pool takes its next shutdown step, where it can: a stop signal is
    /// enqueued, a worker that has stopped is waited for, the sender is let
    /// go. `None` where shutdown is over, or where the worker to wait for has
    /// not stopped yet.
    pub fn advance(&mut self) -> (step: Option<Step>)
        requires
            old(self).wf(),
        ensures
            final(self).wf(),
            enabled(old(self)@, Event::<J>::Advance) ==> step == Some(
                step_at(old(self)@.size, old(self)@.progress),
            ) && final(self)@ == next(old(self)@, Event::<J>::Advance),
            !enabled(old(self)@, Event::<J>::Advance) ==> step.is_none() && final(self)@ == old(
                self,
            )@,
    {
        let ghost before = self@;
        let can = match self.pool.next_step() {
            Step::Signal => true,
            Step::Join(id) => self.states[id] == WorkerState::Stopped,
            Step::Release => true,
            Step::Done => false,
        };
        if !can {
            return None;
        }
        let step = self.pool.advance();
        match step {
            Step::Signal => {
                let _sent = self.channel.send(Message::Terminate);
            },
            Step::Release => {
                self.channel.close();
            },
            _ => {},
        }
        proof {
            lemma_next_inv(before, Event::<J>::Advance);
        }
        Some(step)
    }

    /// The state of worker `id`.
    pub fn state(&self, id: usize) -> (state: WorkerState)
        requires
            self.wf(),
            id < self@.size,
        ensures
            state == self@.states[id as int],
    {
        self.states[id]
    }

    /// The number of workers.
    pub fn size(&self) -> (n: usize)
        requires
            self.wf(),
        ensures
            n == self@.size,
    {
        self.pool.size()
    }

    /// The number of messages on the channel.
    pub fn queued(&self) -> (n: usize)
        ensures
            n == self@.queue.len(),
    {
        self.channel.len()
    }
}

} // verus!
