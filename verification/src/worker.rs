//! A worker: its identity as the pool keeps it, and the decisions of its loop.

use crate::channel::Received;
use crate::message::Message;
use vstd::prelude::*;

verus! {

/// Where a worker's loop stands. `Stopped` is terminal.
#[derive(Clone, Copy, Debug, PartialEq, Eq, Structural)]
pub enum WorkerState {
    Idle,
    Executing,
    Stopped,
}

/// Why a worker left its loop: it was told to, or the channel lost its
/// sender. Both end the loop; they are kept apart so that a caller can report
/// the second as unexpected.
#[derive(Clone, Copy, Debug, PartialEq, Eq, Structural)]
pub enum Exit {
    Terminated,
    Disconnected,
}

/// What a worker does with what it dequeued.
pub enum Action<J> {
    /// Run this job to completion, then report `finish`.
    Run(J),
    /// Wait until the channel has something, then dequeue again.
    Wait,
    /// Leave the loop.
    Exit(Exit),
}

/// The state of an idle worker after a dequeue gave `received`.
pub open spec fn state_after<J>(received: Received<J>) -> WorkerState {
    match received {
        Received::Message(Message::NewJob(_)) => WorkerState::Executing,
        Received::Message(Message::Terminate) => WorkerState::Stopped,
        Received::Empty => WorkerState::Idle,
        Received::Disconnected => WorkerState::Stopped,
    }
}

/// What an idle worker does after a dequeue gave `received`.
pub open spec fn action_for<J>(received: Received<J>) -> Action<J> {
    match received {
        Received::Message(Message::NewJob(job)) => Action::Run(job),
        Received::Message(Message::Terminate) => Action::Exit(Exit::Terminated),
        Received::Empty => Action::Wait,
        Received::Disconnected => Action::Exit(Exit::Disconnected),
    }
}

impl WorkerState {
    /// An idle worker takes what its dequeue gave: a job sends it executing
    /// and is handed back to be run, the stop signal or a lost channel stops
    /// it for good, and on an empty channel it stays idle and waits.
    pub fn receive<J>(&mut self, received: Received<J>) -> (action: Action<J>)
        requires
            *old(self) == WorkerState::Idle,
        ensures
            *final(self) == state_after(received),
            action == action_for(received),
    {
        match received {
            Received::Message(Message::NewJob(job)) => {
                *self = WorkerState::Executing;
                Action::Run(job)
            },
            Received::Message(Message::Terminate) => {
                *self = WorkerState::Stopped;
                Action::Exit(Exit::Terminated)
            },
            Received::Empty => Action::Wait,
            Received::Disconnected => {
                *self = WorkerState::Stopped;
                Action::Exit(Exit::Disconnected)
            },
        }
    }

    /// The job that was running has returned: the worker is idle again.
    pub fn finish(&mut self)
        requires
            *old(self) == WorkerState::Executing,
        ensures
            *final(self) == WorkerState::Idle,
    {
        *self = WorkerState::Idle;
    }
}

/// A worker as its pool keeps it: an identity, and whether its thread has
/// been waited for.
pub struct Worker {
    id: usize,
    joined: bool,
}

impl Worker {
    pub closed spec fn spec_id(&self) -> usize {
        self.id
    }

    pub closed spec fn spec_is_joined(&self) -> bool {
        self.joined
    }

    /// A worker with the identity `id` whose thread nobody has waited for.
    pub fn new(id: usize) -> (w: Worker)
        ensures
            w.spec_id() == id,
            !w.spec_is_joined(),
    {
        Worker { id, joined: false }
    }

    #[verifier::when_used_as_spec(spec_id)]
    pub fn id(&self) -> (id: usize)
        ensures
            id == self.spec_id(),
    {
        self.id
    }

    #[verifier::when_used_as_spec(spec_is_joined)]
    pub fn is_joined(&self) -> (joined: bool)
        ensures
            joined == self.spec_is_joined(),
    {
        self.joined
    }

    /// Records that the worker's thread has ended and was waited for.
    pub fn join(&mut self)
        ensures
            final(self).spec_id() == old(self).spec_id(),
            final(self).spec_is_joined(),
    {
        self.joined = true;
    }
}

} // verus!
