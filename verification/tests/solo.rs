use vitis_be::solo::{spawn_solo, Dispatch, SubmissionQueue};

fn run(idle: u64, tasks: usize) -> (Vec<Dispatch>, usize) {
    let mut queue = SubmissionQueue::new();
    for registration in 0..idle {
        queue.register(registration);
    }
    let mut done = Vec::new();
    for _ in 0..tasks {
        done.push(spawn_solo(&mut queue));
    }
    (done, queue.idle())
}

fn spawned(done: &[Dispatch]) -> usize {
    done.iter().filter(|d| **d == Dispatch::Spawn).count()
}

#[test]
fn executor_reuses_idle_workers_before_it_spawns() {
    let (done, left) = run(5, 3);
    assert_eq!(spawned(&done), 0);
    assert_eq!(done, vec![Dispatch::Reuse(4), Dispatch::Reuse(3), Dispatch::Reuse(2)]);
    assert_eq!(left, 2);
}

#[test]
fn executor_spawns_one_worker_for_each_task_that_is_over() {
    let (done, left) = run(2, 5);
    assert_eq!(spawned(&done), 3);
    assert_eq!(
        done,
        vec![
            Dispatch::Reuse(1),
            Dispatch::Reuse(0),
            Dispatch::Spawn,
            Dispatch::Spawn,
            Dispatch::Spawn
        ]
    );
    assert_eq!(left, 0);
}

#[test]
fn executor_with_as_many_workers_as_tasks_spawns_none() {
    let (done, left) = run(4, 4);
    assert_eq!(spawned(&done), 0);
    assert_eq!(left, 0);
}

#[test]
fn executor_without_workers_spawns() {
    let mut queue = SubmissionQueue::new();
    assert_eq!(queue.idle(), 0);
    assert_eq!(spawn_solo(&mut queue), Dispatch::Spawn);
    assert_eq!(queue.idle(), 0);
}

#[test]
fn worker_that_registers_again_is_taken_first() {
    let mut queue = SubmissionQueue::new();
    queue.register(10);
    queue.register(11);
    assert_eq!(spawn_solo(&mut queue), Dispatch::Reuse(11));
    queue.register(12);
    assert_eq!(spawn_solo(&mut queue), Dispatch::Reuse(12));
    assert_eq!(spawn_solo(&mut queue), Dispatch::Reuse(10));
    assert_eq!(spawn_solo(&mut queue), Dispatch::Spawn);
}

#[test]
fn workers_are_as_many_as_the_peak_of_running_tasks() {
    let mut queue = SubmissionQueue::new();
    // three tasks at once: three workers
    for _ in 0..3 {
        assert_eq!(spawn_solo(&mut queue), Dispatch::Spawn);
    }
    assert_eq!((queue.running(), queue.workers(), queue.peak()), (3, 3, 3));
    // two of them end, and their workers wait
    queue.register(0);
    queue.register(1);
    assert_eq!((queue.running(), queue.workers(), queue.peak(), queue.idle()), (1, 3, 3, 2));
    // two more tasks take the idle workers, a third needs a fourth worker
    assert_eq!(spawn_solo(&mut queue), Dispatch::Reuse(1));
    assert_eq!(spawn_solo(&mut queue), Dispatch::Reuse(0));
    assert_eq!((queue.running(), queue.workers(), queue.peak()), (3, 3, 3));
    assert_eq!(spawn_solo(&mut queue), Dispatch::Spawn);
    assert_eq!((queue.running(), queue.workers(), queue.peak()), (4, 4, 4));
    for registration in 2..6 {
        queue.register(registration);
    }
    assert_eq!((queue.running(), queue.workers(), queue.peak(), queue.idle()), (0, 4, 4, 4));
}

#[test]
fn worker_that_comes_up_idle_is_counted() {
    let mut queue = SubmissionQueue::new();
    queue.register(7);
    assert_eq!((queue.running(), queue.workers(), queue.peak(), queue.idle()), (0, 1, 0, 1));
    assert_eq!(spawn_solo(&mut queue), Dispatch::Reuse(7));
    assert_eq!((queue.running(), queue.workers(), queue.peak(), queue.idle()), (1, 1, 1, 0));
}

#[test]
fn registration_waits_until_it_is_taken() {
    let mut queue = SubmissionQueue::new();
    assert!(!queue.waits(3));
    queue.register(3);
    queue.register(5);
    assert!(queue.waits(3));
    assert!(queue.waits(5));
    assert!(!queue.waits(4));
    assert_eq!(spawn_solo(&mut queue), Dispatch::Reuse(5));
    assert!(!queue.waits(5));
    assert!(queue.waits(3));
}
