//! A fixed-size worker pool and the small web server that feeds it, as far
//! as both can be stated without threads and sockets.
//!
//! The pool is given as the decisions of its parts: what a worker does with
//! what it dequeued (`worker`), what the channel hands out and in which order
//! (`channel`), which workers a pool has and in which order it shuts down
//! (`pool`). `protocol` puts the parts together in a model of every run and
//! proves what holds of all of them: each job runs exactly once, no worker
//! leaves while a job waits, and shutdown ends with every worker stopped.
//! `dispatch` is that model as a value that can be run in one thread.
//!
//! The server's part is the reading of a request line (`request`) and the
//! text of the answer (`response`).

pub mod channel;
pub mod dispatch;
pub mod message;
pub mod pool;
pub mod protocol;
pub mod request;
pub mod response;
pub mod worker;

pub use channel::{Channel, Received};
pub use dispatch::Dispatch;
pub use message::Message;
pub use pool::{Step, ThreadPool};
pub use request::{HttpRequest, Method};
pub use response::{get_response, select_document};
pub use worker::{Action, Exit, Worker, WorkerState};
