use std::cell::{Cell, RefCell};
use std::rc::Rc;
use websvr::{Action, Dispatch, Exit, Step, WorkerState};

type Job = Box<dyn FnOnce()>;

/// Lets every idle worker dequeue once, in the order of the identities, and
/// run what it got. Returns what each worker that left gave as its reason.
fn turn(d: &mut Dispatch<Job>) -> Vec<(usize, Exit)> {
    let mut exits = Vec::new();
    for id in 0..d.size() {
        if d.state(id) != WorkerState::Idle {
            continue;
        }
        match d.take(id) {
            Action::Run(job) => {
                assert_eq!(d.state(id), WorkerState::Executing);
                job();
                d.finish(id);
            }
            Action::Wait => {}
            Action::Exit(exit) => exits.push((id, exit)),
        }
    }
    exits
}

/// Shuts down: takes each step, and lets the workers move while the pool has
/// to wait. Returns the steps and the exits in the order they happened.
fn shut_down(d: &mut Dispatch<Job>) -> (Vec<Step>, Vec<(usize, Exit)>) {
    let mut steps = Vec::new();
    let mut exits = Vec::new();
    let mut rounds = 0;
    loop {
        match d.advance() {
            Some(step) => steps.push(step),
            None => {
                if steps.last() == Some(&Step::Release) {
                    return (steps, exits);
                }
                exits.extend(turn(d));
            }
        }
        rounds += 1;
        assert!(rounds < 10_000);
    }
}

#[test]
fn dispatch_three_workers_nine_jobs() {
    let mut d: Dispatch<Job> = Dispatch::new(3);
    assert_eq!(d.size(), 3);
    let runs = Rc::new(Cell::new(0u32));
    for _ in 0..9 {
        let runs = Rc::clone(&runs);
        assert!(d.submit(Box::new(move || runs.set(runs.get() + 1))).is_ok());
    }
    assert_eq!(d.queued(), 9);
    let (steps, exits) = shut_down(&mut d);
    assert_eq!(runs.get(), 9);
    assert_eq!(d.queued(), 0);
    assert_eq!(
        steps,
        vec![Step::Signal, Step::Signal, Step::Signal, Step::Join(0), Step::Join(1), Step::Join(2), Step::Release]
    );
    assert_eq!(exits, vec![(0, Exit::Terminated), (1, Exit::Terminated), (2, Exit::Terminated)]);
    for id in 0..3 {
        assert_eq!(d.state(id), WorkerState::Stopped);
    }
    assert_eq!(d.advance(), None);
}

#[test]
fn dispatch_one_worker_counts_to_a_hundred() {
    let mut d: Dispatch<Job> = Dispatch::new(1);
    let counter = Rc::new(Cell::new(0u32));
    for _ in 0..100 {
        let counter = Rc::clone(&counter);
        assert!(d.submit(Box::new(move || counter.set(counter.get() + 1))).is_ok());
    }
    let (steps, exits) = shut_down(&mut d);
    assert_eq!(counter.get(), 100);
    assert_eq!(steps, vec![Step::Signal, Step::Join(0), Step::Release]);
    assert_eq!(exits, vec![(0, Exit::Terminated)]);
}

#[test]
fn dispatch_runs_each_job_once_in_order() {
    let mut d: Dispatch<Job> = Dispatch::new(2);
    let log = Rc::new(RefCell::new(Vec::new()));
    for k in 0..10u32 {
        let log = Rc::clone(&log);
        assert!(d.submit(Box::new(move || log.borrow_mut().push(k))).is_ok());
        if k % 4 == 3 {
            assert!(turn(&mut d).is_empty());
        }
    }
    shut_down(&mut d);
    assert_eq!(*log.borrow(), (0..10).collect::<Vec<u32>>());
}

#[test]
fn dispatch_waits_for_a_worker_that_has_not_stopped() {
    let mut d: Dispatch<Job> = Dispatch::new(2);
    assert_eq!(d.advance(), Some(Step::Signal));
    assert_eq!(d.advance(), Some(Step::Signal));
    assert_eq!(d.queued(), 2);
    assert_eq!(d.advance(), None);
    assert!(matches!(d.take(1), Action::Exit(Exit::Terminated)));
    assert_eq!(d.advance(), None);
    assert!(matches!(d.take(0), Action::Exit(Exit::Terminated)));
    assert_eq!(d.advance(), Some(Step::Join(0)));
    assert_eq!(d.advance(), Some(Step::Join(1)));
    assert_eq!(d.advance(), Some(Step::Release));
    assert_eq!(d.advance(), None);
}

#[test]
fn dispatch_refuses_jobs_once_shutdown_began() {
    let mut d: Dispatch<u32> = Dispatch::new(1);
    assert!(d.submit(1).is_ok());
    assert_eq!(d.advance(), Some(Step::Signal));
    assert_eq!(d.submit(2), Err(2));
    assert_eq!(d.queued(), 2);
    assert!(matches!(d.take(0), Action::Run(1)));
    d.finish(0);
    assert!(matches!(d.take(0), Action::Exit(Exit::Terminated)));
    assert_eq!(d.queued(), 0);
}

#[test]
fn dispatch_idle_worker_waits_on_an_empty_channel() {
    let mut d: Dispatch<u32> = Dispatch::new(2);
    assert!(matches!(d.take(0), Action::Wait));
    assert_eq!(d.state(0), WorkerState::Idle);
    assert!(d.submit(5).is_ok());
    assert!(matches!(d.take(1), Action::Run(5)));
    assert_eq!(d.state(1), WorkerState::Executing);
    assert!(matches!(d.take(0), Action::Wait));
}

#[test]
fn dispatch_no_worker_stops_while_a_job_waits() {
    let mut d: Dispatch<Job> = Dispatch::new(3);
    let runs = Rc::new(Cell::new(0u32));
    for _ in 0..5 {
        let runs = Rc::clone(&runs);
        assert!(d.submit(Box::new(move || runs.set(runs.get() + 1))).is_ok());
    }
    for _ in 0..3 {
        assert_eq!(d.advance(), Some(Step::Signal));
    }
    let mut stopped = 0;
    while stopped < 3 {
        let exits = turn(&mut d);
        if !exits.is_empty() {
            assert_eq!(runs.get(), 5);
        }
        stopped += exits.len();
    }
    assert_eq!(d.queued(), 0);
}
