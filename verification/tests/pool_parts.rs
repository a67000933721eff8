use websvr::{Action, Channel, Exit, Message, Received, Step, ThreadPool, Worker, WorkerState};

#[test]
fn new_pool_has_workers_with_identities_in_order() {
    for count in [1usize, 2, 3, 5, 16] {
        let pool = ThreadPool::new(count);
        assert_eq!(pool.size(), count);
        assert_eq!(pool.workers().len(), count);
        for (i, w) in pool.workers().iter().enumerate() {
            assert_eq!(w.id(), i);
            assert!(!w.is_joined());
        }
        assert!(pool.is_running());
    }
}

#[test]
fn new_worker_keeps_its_identity() {
    let mut w = Worker::new(7);
    assert_eq!(w.id(), 7);
    assert!(!w.is_joined());
    w.join();
    assert_eq!(w.id(), 7);
    assert!(w.is_joined());
}

#[test]
fn execute_wraps_the_job_while_the_pool_is_alive() {
    let pool = ThreadPool::new(2);
    assert!(matches!(pool.execute(41u32), Ok(Message::NewJob(41))));
    assert!(pool.is_running());
}

#[test]
fn execute_hands_the_job_back_once_shutdown_began() {
    let mut pool = ThreadPool::new(2);
    assert_eq!(pool.advance(), Step::Signal);
    assert!(!pool.is_running());
    assert!(matches!(pool.execute(41u32), Err(41)));
}

#[test]
fn shutdown_signals_all_then_joins_all_then_releases() {
    let mut pool = ThreadPool::new(3);
    let mut steps = Vec::new();
    for _ in 0..9 {
        steps.push(pool.advance());
    }
    assert_eq!(
        steps,
        vec![
            Step::Signal,
            Step::Signal,
            Step::Signal,
            Step::Join(0),
            Step::Join(1),
            Step::Join(2),
            Step::Release,
            Step::Done,
            Step::Done,
        ]
    );
    assert_eq!(pool.size(), 3);
}

#[test]
fn shutdown_of_one_worker() {
    let mut pool = ThreadPool::new(1);
    assert_eq!(pool.advance(), Step::Signal);
    assert_eq!(pool.advance(), Step::Join(0));
    assert_eq!(pool.advance(), Step::Release);
    assert_eq!(pool.advance(), Step::Done);
}

#[test]
fn joins_are_recorded_on_the_workers() {
    let mut pool = ThreadPool::new(2);
    pool.advance();
    pool.advance();
    assert!(!pool.workers()[0].is_joined());
    assert_eq!(pool.advance(), Step::Join(0));
    assert!(pool.workers()[0].is_joined());
    assert!(!pool.workers()[1].is_joined());
    assert_eq!(pool.advance(), Step::Join(1));
    assert!(pool.workers()[1].is_joined());
    assert_eq!(pool.workers()[0].id(), 0);
    assert_eq!(pool.workers()[1].id(), 1);
}

#[test]
fn worker_runs_a_job_and_is_idle_again() {
    let mut state = WorkerState::Idle;
    let action = state.receive(Received::Message(Message::NewJob(5u8)));
    assert!(matches!(action, Action::Run(5)));
    assert_eq!(state, WorkerState::Executing);
    state.finish();
    assert_eq!(state, WorkerState::Idle);
}

#[test]
fn worker_stops_on_terminate() {
    let mut state = WorkerState::Idle;
    let action = state.receive(Received::Message(Message::<u8>::Terminate));
    assert!(matches!(action, Action::Exit(Exit::Terminated)));
    assert_eq!(state, WorkerState::Stopped);
}

#[test]
fn worker_stops_on_disconnection() {
    let mut state = WorkerState::Idle;
    let action = state.receive(Received::<u8>::Disconnected);
    assert!(matches!(action, Action::Exit(Exit::Disconnected)));
    assert_eq!(state, WorkerState::Stopped);
}

#[test]
fn worker_waits_on_an_empty_channel() {
    let mut state = WorkerState::Idle;
    let action = state.receive(Received::<u8>::Empty);
    assert!(matches!(action, Action::Wait));
    assert_eq!(state, WorkerState::Idle);
}

#[test]
fn channel_hands_messages_out_in_order_and_once() {
    let mut ch: Channel<u32> = Channel::new();
    assert!(ch.is_open());
    assert_eq!(ch.len(), 0);
    assert!(ch.send(Message::NewJob(1)).is_ok());
    assert!(ch.send(Message::NewJob(2)).is_ok());
    assert!(ch.send(Message::Terminate).is_ok());
    assert_eq!(ch.len(), 3);
    assert!(matches!(ch.recv(), Received::Message(Message::NewJob(1))));
    assert!(matches!(ch.recv(), Received::Message(Message::NewJob(2))));
    assert_eq!(ch.len(), 1);
    assert!(matches!(ch.recv(), Received::Message(Message::Terminate)));
    assert!(matches!(ch.recv(), Received::Empty));
    assert_eq!(ch.len(), 0);
}

#[test]
fn closed_channel_refuses_and_returns_the_message() {
    let mut ch: Channel<u32> = Channel::new();
    assert!(ch.send(Message::NewJob(1)).is_ok());
    ch.close();
    assert!(!ch.is_open());
    assert!(matches!(ch.send(Message::NewJob(2)), Err(Message::NewJob(2))));
    assert_eq!(ch.len(), 1);
    assert!(matches!(ch.recv(), Received::Message(Message::NewJob(1))));
    assert!(matches!(ch.recv(), Received::Disconnected));
    assert!(matches!(ch.recv(), Received::Disconnected));
}
