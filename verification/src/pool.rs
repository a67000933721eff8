//! The pool: a fixed set of workers, submission, and the order of shutdown.

use crate::message::Message;
use crate::worker::Worker;
use vstd::prelude::*;

verus! {

/// One step of shutdown, for the owner of the channel and the threads to
/// perform.
#[derive(Clone, Copy, Debug, PartialEq, Eq, Structural)]
pub enum Step {
    /// Send one stop signal on the channel.
    Signal,
    /// Wait for the thread of the worker with this identity to end.
    Join(usize),
    /// Let go of the sending end of the channel.
    Release,
    /// Nothing is left to do.
    Done,
}

/// The step that a pool of `size` workers takes after `progress` earlier
/// ones: a stop signal for each worker, then a wait for each worker in the
/// order of their identities, then the release of the sender.
pub open spec fn step_at(size: nat, progress: nat) -> Step {
    if progress < size {
        Step::Signal
    } else if progress < 2 * size {
        Step::Join((progress - size) as usize)
    } else if progress == 2 * size {
        Step::Release
    } else {
        Step::Done
    }
}

/// A pool of workers whose number is fixed when it is made.
pub struct ThreadPool {
    workers: Vec<Worker>,
    signalled: usize,
    joined: usize,
    released: bool,
    failed: bool,
}

impl ThreadPool {
    /// The pool's invariant: it has a worker, worker `i` has the identity
    /// `i`, the workers waited for are the first ones, no wait comes before
    /// the last stop signal, and the sender goes after the last wait or when
    /// shutdown is given up.
    pub closed spec fn wf(&self) -> bool {
        &&& self.workers@.len() > 0
        &&& self.signalled <= self.workers@.len()
        &&& self.joined <= self.workers@.len()
        &&& self.joined > 0 ==> self.signalled == self.workers@.len()
        &&& self.released ==> self.joined == self.workers@.len() || self.failed
        &&& self.failed ==> self.released
        &&& forall|i: int|
            0 <= i < self.workers@.len() ==> {
                &&& (#[trigger] self.workers@[i]).spec_id() == i
                &&& self.workers@[i].spec_is_joined() == (i < self.joined)
            }
    }

    /// The number of workers.
    pub closed spec fn spec_size(&self) -> nat {
        self.workers@.len()
    }

    /// The number of shutdown steps taken so far; 0 while the pool is alive.
    /// Where shutdown was given up, the steps not taken count as taken:
    /// nothing is left to do.
    pub closed spec fn progress(&self) -> nat {
        if self.failed {
            2 * self.workers@.len() + 1
        } else {
            (self.signalled + self.joined + if self.released {
                1nat
            } else {
                0nat
            }) as nat
        }
    }

    /// Whether shutdown was given up because a step failed.
    pub closed spec fn spec_has_failed(&self) -> bool {
        self.failed
    }

    /// The workers, in the order of their identities.
    pub closed spec fn spec_workers(&self) -> Seq<Worker> {
        self.workers@
    }

    /// A pool of `count` workers with the identities 0 to `count - 1`, none
    /// of them waited for, and no shutdown step taken.
    pub fn new(count: usize) -> (pool: ThreadPool)
        requires
            count > 0,
        ensures
            pool.wf(),
            pool.spec_size() == count,
            pool.progress() == 0,
            !pool.spec_has_failed(),
            pool.spec_workers().len() == count,
            forall|i: int|
                0 <= i < count ==> {
                    &&& (#[trigger] pool.spec_workers()[i]).spec_id() == i
                    &&& !pool.spec_workers()[i].spec_is_joined()
                },
    {
        let mut workers: Vec<Worker> = Vec::with_capacity(count);
        let mut i: usize = 0;
        while i < count
            invariant
                i <= count,
                workers@.len() == i,
                forall|k: int|
                    0 <= k < i ==> {
                        &&& (#[trigger] workers@[k]).spec_id() == k
                        &&& !workers@[k].spec_is_joined()
                    },
            decreases count - i,
        {
            workers.push(Worker::new(i));
            i += 1;
        }
        ThreadPool { workers, signalled: 0, joined: 0, released: false, failed: false }
    }

    /// The number of workers.
    pub fn size(&self) -> (n: usize)
        ensures
            n == self.spec_size(),
    {
        self.workers.len()
    }

    /// The workers, in the order of their identities.
    pub fn workers(&self) -> (ws: &Vec<Worker>)
        ensures
            ws@ == self.spec_workers(),
    {
        &self.workers
    }

    /// Whether the pool is alive: no shutdown step was taken.
    pub fn is_running(&self) -> (b: bool)
        requires
            self.wf(),
        ensures
            b == (self.progress() == 0),
    {
        self.signalled == 0 && !self.failed
    }

    /// Whether shutdown was given up because a step failed.
    #[verifier::when_used_as_spec(spec_has_failed)]
    pub fn has_failed(&self) -> (failed: bool)
        ensures
            failed == self.spec_has_failed(),
    {
        self.failed
    }

    /// Accepts a job. While the pool is alive the job comes back wrapped as
    /// the message to enqueue; once shutdown has begun it is handed back
    /// untouched, and the caller reports the failure.
    pub fn execute<J>(&self, job: J) -> (res: Result<Message<J>, J>)
        requires
            self.wf(),
        ensures
            res == if self.progress() == 0 {
                Ok::<Message<J>, J>(Message::NewJob(job))
            } else {
                Err::<Message<J>, J>(job)
            },
    {
        if self.signalled == 0 && !self.failed {
            Ok(Message::NewJob(job))
        } else {
            Err(job)
        }
    }

    /// The step that `advance` would take, without taking it.
    pub fn next_step(&self) -> (step: Step)
        requires
            self.wf(),
        ensures
            step == step_at(self.spec_size(), self.progress()),
    {
        let n: usize = self.workers.len();
        if self.failed {
            Step::Done
        } else if self.signalled < n {
            Step::Signal
        } else if self.joined < n {
            Step::Join(self.joined)
        } else if !self.released {
            Step::Release
        } else {
            Step::Done
        }
    }

    /// Takes the next step of shutdown: the pool records it and hands it out
    /// to be performed. The first call begins shutdown; after the release of
    /// the sender every call gives `Done` and changes nothing.
    pub fn advance(&mut self) -> (step: Step)
        requires
            old(self).wf(),
        ensures
            final(self).wf(),
            final(self).spec_size() == old(self).spec_size(),
            final(self).spec_has_failed() == old(self).spec_has_failed(),
            step == step_at(old(self).spec_size(), old(self).progress()),
            final(self).progress() == if step == Step::Done {
                old(self).progress()
            } else {
                old(self).progress() + 1
            },
            forall|i: int|
                0 <= i < old(self).spec_size() ==> {
                    &&& (#[trigger] final(self).spec_workers()[i]).spec_id() == i
                    &&& final(self).spec_workers()[i].spec_is_joined() == (old(
                        self,
                    ).spec_workers()[i].spec_is_joined() || step == Step::Join(i as usize))
                },
    {
        let n: usize = self.workers.len();
        if self.failed {
            Step::Done
        } else if self.signalled < n {
            self.signalled += 1;
            Step::Signal
        } else if self.joined < n {
            let i: usize = self.joined;
            let mut w = Worker::new(i);
            w.join();
            self.workers.set(i, w);
            self.joined += 1;
            Step::Join(i)
        } else if !self.released {
            self.released = true;
            Step::Release
        } else {
            Step::Done
        }
    }

    /// Gives shutdown up after a step that failed: a stop signal that the
    /// channel did not take, or a wait that found its worker dead of a
    /// failed job. Nothing is tried again and no other worker is waited for.
    /// What is handed out is the one step left, the release of the sender,
    /// by which the workers that remain leave on their own; `Done` where the
    /// sender was released before.
    pub fn abort(&mut self) -> (step: Step)
        requires
            old(self).wf(),
        ensures
            final(self).wf(),
            final(self).spec_size() == old(self).spec_size(),
            final(self).spec_workers() == old(self).spec_workers(),
            final(self).spec_has_failed(),
            final(self).progress() == 2 * old(self).spec_size() + 1,
            step == if old(self).progress() <= 2 * old(self).spec_size() {
                Step::Release
            } else {
                Step::Done
            },
    {
        let step = if self.released {
            Step::Done
        } else {
            Step::Release
        };
        self.released = true;
        self.failed = true;
        step
    }
}

/// The workers of a pool have the identities 0 up to their number, each of
/// them once, and their number is the pool's size.
pub proof fn lemma_identities_unique(pool: ThreadPool, i: int, j: int)
    requires
        pool.wf(),
        0 <= i < pool.spec_size(),
        0 <= j < pool.spec_size(),
    ensures
        pool.spec_workers().len() == pool.spec_size(),
        0 <= pool.spec_workers()[i].spec_id() < pool.spec_size(),
        i != j ==> pool.spec_workers()[i].spec_id() != pool.spec_workers()[j].spec_id(),
{
}

/// A pool sends exactly one stop signal for each worker: its steps are stop
/// signals up to the number of workers, and none after.
pub proof fn lemma_one_signal_per_worker(size: nat, progress: nat)
    requires
        size > 0,
    ensures
        step_at(size, progress) == Step::Signal <==> progress < size,
{
}

/// Signal all, then join all: every wait comes after every stop signal, and
/// the sender is released only after every wait.
pub proof fn lemma_signals_then_joins_then_release(size: nat, p: nat, q: nat)
    requires
        size > 0,
        size <= usize::MAX,
    ensures
        step_at(size, p) == Step::Signal && step_at(size, q) is Join ==> p < q,
        step_at(size, p) is Join && step_at(size, q) == Step::Release ==> p < q,
        step_at(size, p) == Step::Release && step_at(size, q) == Step::Done ==> p < q,
{
}

/// Every worker is waited for exactly once: the wait for worker `id` is step
/// `size + id` and no other.
pub proof fn lemma_one_join_per_worker(size: nat, id: nat, progress: nat)
    requires
        size <= usize::MAX,
        id < size,
    ensures
        step_at(size, progress) == Step::Join(id as usize) <==> progress == size + id,
{
}

} // verus!
