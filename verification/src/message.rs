//! What travels on the dispatch channel.

use vstd::prelude::*;

verus! {

/// One unit on the dispatch channel: a job to run, or the signal to stop.
/// The stop signal travels in the same queue as the jobs, so a worker sees it
/// only after every job that was enqueued before it has been taken.
pub enum Message<J> {
    NewJob(J),
    Terminate,
}

} // verus!
