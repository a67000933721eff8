//! The dispatch channel: one queue of messages for all workers.

use crate::message::Message;
use std::collections::VecDeque;
use vstd::prelude::*;

verus! {

/// What a dequeue gives.
pub enum Received<J> {
    /// The oldest message, now taken off the channel.
    Message(Message<J>),
    /// Nothing for now: the channel is empty and its sender is still there.
    Empty,
    /// Nothing ever again: the channel is empty and its sender is gone.
    Disconnected,
}

/// What a dequeue gives on a channel that holds `queue`, oldest first, and
/// whose sender is there or not.
pub open spec fn head_of<J>(queue: Seq<Message<J>>, open: bool) -> Received<J> {
    if queue.len() > 0 {
        Received::Message(queue[0])
    } else if open {
        Received::Empty
    } else {
        Received::Disconnected
    }
}

/// What a dequeue leaves on a channel that holds `queue`.
pub open spec fn rest_of<J>(queue: Seq<Message<J>>) -> Seq<Message<J>> {
    if queue.len() > 0 {
        queue.drop_first()
    } else {
        queue
    }
}

/// On a channel without its sender no dequeue waits: every worker that comes
/// gets a message or is told to leave.
pub proof fn lemma_released_never_waits<J>(queue: Seq<Message<J>>)
    ensures
        !(head_of(queue, false) is Empty),
        head_of(queue, false) is Disconnected <==> queue.len() == 0,
{
}

/// The channel is a queue: after `back` was enqueued behind `queue`, the
/// messages of `queue` are what the first dequeues give, in their order, and
/// `back` comes after them.
pub proof fn lemma_first_in_first_out<J>(queue: Seq<Message<J>>, back: Message<J>, open: bool)
    ensures
        queue.len() > 0 ==> head_of(queue.push(back), open) == head_of(queue, open) && rest_of(
            queue.push(back),
        ) == rest_of(queue).push(back),
        queue.len() == 0 ==> head_of(queue.push(back), open) == Received::Message(back)
            && rest_of(queue.push(back)) == queue,
{
    if queue.len() > 0 {
        assert(queue.push(back).drop_first() =~= queue.drop_first().push(back));
    } else {
        assert(queue.push(back).drop_first() =~= queue);
    }
}

/// A queue of messages without a bound. Messages leave in the order in which
/// they came, each of them once. The owner shares it behind a lock; a worker
/// holds the lock for one dequeue and not while it runs a job.
pub struct Channel<J> {
    queue: VecDeque<Message<J>>,
    open: bool,
}

impl<J> Channel<J> {
    /// The messages on the channel, oldest first.
    pub closed spec fn spec_queue(&self) -> Seq<Message<J>> {
        self.queue@
    }

    /// Whether the sender is still there.
    pub closed spec fn spec_is_open(&self) -> bool {
        self.open
    }

    /// An empty channel with its sender.
    pub fn new() -> (channel: Channel<J>)
        ensures
            channel.spec_queue() == Seq::<Message<J>>::empty(),
            channel.spec_is_open(),
    {
        Channel { queue: VecDeque::new(), open: true }
    }

    /// Enqueues `message` behind all that the channel holds. On a channel
    /// whose sender is gone nothing is enqueued and the message comes back.
    pub fn send(&mut self, message: Message<J>) -> (res: Result<(), Message<J>>)
        ensures
            final(self).spec_is_open() == old(self).spec_is_open(),
            old(self).spec_is_open() ==> res == Ok::<(), Message<J>>(())
                && final(self).spec_queue() == old(self).spec_queue().push(message),
            !old(self).spec_is_open() ==> res == Err::<(), Message<J>>(message)
                && final(self).spec_queue() == old(self).spec_queue(),
    {
        if self.open {
            self.queue.push_back(message);
            Ok(())
        } else {
            Err(message)
        }
    }

    /// Takes the oldest message off the channel, or says why there is none.
    pub fn recv(&mut self) -> (received: Received<J>)
        ensures
            received == head_of(old(self).spec_queue(), old(self).spec_is_open()),
            final(self).spec_queue() == rest_of(old(self).spec_queue()),
            final(self).spec_is_open() == old(self).spec_is_open(),
    {
        match self.queue.pop_front() {
            Some(message) => {
                assert(self.queue@ =~= old(self).queue@.drop_first());
                Received::Message(message)
            },
            None => if self.open {
                Received::Empty
            } else {
                Received::Disconnected
            },
        }
    }

    /// Lets go of the sender. What the channel holds can still be taken.
    pub fn close(&mut self)
        ensures
            !final(self).spec_is_open(),
            final(self).spec_queue() == old(self).spec_queue(),
    {
        self.open = false;
    }

    /// The number of messages on the channel.
    pub fn len(&self) -> (n: usize)
        ensures
            n == self.spec_queue().len(),
    {
        self.queue.len()
    }

    /// Whether the sender is still there.
    #[verifier::when_used_as_spec(spec_is_open)]
    pub fn is_open(&self) -> (open: bool)
        ensures
            open == self.spec_is_open(),
    {
        self.open
    }
}

} // verus!
