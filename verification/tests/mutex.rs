use std::collections::VecDeque;

use ats_task::api;
use ats_task::ats::{Ats, ReadyPush, RunStep, Runtime};
use ats_task::mutex::Mutex;
use ats_task::task::{TaskId, TaskInfo, TaskState};

fn run(ats: &Ats, rt: &mut Runtime, id: u64) {
    assert_eq!(ats.run_step(rt, 0, Some(TaskId(id))), RunStep::Poll(TaskId(id)));
}

#[test]
fn new_mutex_is_free() {
    let m = Mutex::new(3u32);
    assert!(!m.is_locked());
    assert_eq!(*m.get(), 3);
    assert_eq!(m.into_inner(), 3);
}

#[test]
fn contended_lock_sleeps_and_unlock_wakes() {
    let mut rt = Runtime::new();
    let ats = Ats::new(0, 0);
    api::spawn(&mut rt);
    api::spawn(&mut rt);
    let mut m = Mutex::new(5u32);
    run(&ats, &mut rt, 1);
    assert!(m.try_lock(&rt));
    assert!(m.is_locked());
    api::yield_now(&mut rt);
    run(&ats, &mut rt, 2);
    assert!(!m.try_lock(&rt));
    assert!(!m.lock(&mut rt));
    assert_eq!(rt.task_info(TaskId(2)).unwrap().state(), TaskState::Blocked);
    run(&ats, &mut rt, 1);
    *m.get_mut() += 1;
    assert_eq!(m.force_unlock(&mut rt), vec![ReadyPush { task: TaskId(2), priority: 1 }]);
    assert!(!m.is_locked());
    run(&ats, &mut rt, 2);
    assert!(m.lock_retry(&mut rt));
    assert!(m.is_locked());
    assert_eq!(*m.get(), 6);
}

#[test]
fn retry_on_a_held_mutex_sleeps_again() {
    let mut rt = Runtime::new();
    let ats = Ats::new(0, 0);
    api::spawn(&mut rt);
    api::spawn(&mut rt);
    let mut m = Mutex::new(0u32);
    run(&ats, &mut rt, 1);
    assert!(m.lock(&mut rt));
    api::yield_now(&mut rt);
    run(&ats, &mut rt, 2);
    assert!(!m.lock(&mut rt));
    rt.wake(TaskId(2));
    run(&ats, &mut rt, 2);
    assert!(!m.lock_retry(&mut rt));
    assert_eq!(rt.task_info(TaskId(2)).unwrap().state(), TaskState::Blocked);
}

/// What each simulated thread does next.
#[derive(Clone, Copy, PartialEq)]
enum Step {
    Lock,
    Retry,
    Add,
    Unlock,
    Done,
}

struct Worker {
    delta: u32,
    left: u32,
    step: Step,
}

fn may_interrupt() -> bool {
    rand::random::<u32>() % 3 == 0
}

#[test]
fn lots_and_lots() {
    const NUM_TASKS: u32 = 10;
    const NUM_ITERS: u32 = 10_000;
    let mut rt = Runtime::new();
    let ats = Ats::new(0, 0);
    let mut m = Mutex::new(0u32);
    let mut ready: VecDeque<TaskId> = VecDeque::new();
    let mut workers: Vec<Worker> = Vec::new();
    // task 1 is the checking thread
    ready.push_back(api::spawn(&mut rt).task);
    workers.push(Worker { delta: 0, left: 0, step: Step::Lock });
    for _ in 0..NUM_TASKS {
        for delta in [1u32, 2] {
            ready.push_back(api::spawn(&mut rt).task);
            workers.push(Worker { delta, left: NUM_ITERS, step: Step::Lock });
        }
    }
    println!("spawn OK");
    let mut finished = false;
    while let Some(t) = ready.pop_front() {
        match ats.run_step(&mut rt, 0, Some(t)) {
            RunStep::Poll(t) => {
                let w = &mut workers[(t.0 - 1) as usize];
                loop {
                    match w.step {
                        Step::Lock | Step::Retry => {
                            let got = if w.step == Step::Lock {
                                m.lock(&mut rt)
                            } else {
                                m.lock_retry(&mut rt)
                            };
                            if got {
                                w.step = Step::Add;
                            } else {
                                w.step = Step::Retry;
                                break;
                            }
                        },
                        Step::Add => {
                            if w.delta == 0 {
                                if *m.get() == NUM_ITERS * NUM_TASKS * 3 {
                                    finished = true;
                                }
                            } else {
                                *m.get_mut() += w.delta;
                            }
                            w.step = Step::Unlock;
                            if may_interrupt() {
                                ready.push_back(api::yield_now(&mut rt).task);
                                break;
                            }
                        },
                        Step::Unlock => {
                            for p in m.force_unlock(&mut rt) {
                                ready.push_back(p.task);
                            }
                            if w.delta == 0 {
                                w.step = if finished { Step::Done } else { Step::Lock };
                            } else {
                                w.left -= 1;
                                w.step = if w.left == 0 { Step::Done } else { Step::Lock };
                            }
                            if w.step != Step::Done && may_interrupt() {
                                ready.push_back(api::yield_now(&mut rt).task);
                                break;
                            }
                        },
                        Step::Done => {
                            let out = api::exit(&mut rt, 0);
                            assert!(out.joiners.is_empty());
                            break;
                        },
                    }
                }
                ats.finish_poll(&mut rt, t);
            },
            RunStep::Skip | RunStep::Idle => {},
        }
    }
    assert!(finished);
    assert_eq!(*m.get(), NUM_ITERS * NUM_TASKS * 3);
    assert_eq!(rt.exited_tasks().len(), 21);
    println!("Mutex test OK");
}
