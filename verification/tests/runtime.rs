use ats_task::api;
use ats_task::ats::{Ats, IntrPush, ReadyPush, RunStep, Runtime, TimedWait};
use ats_task::task::{
    format_id_name, AsyncTaskInner, AxTask, CurrentTask, TaskId, TaskInfo, TaskInner, TaskState,
};
use ats_task::wait_queue::WaitQueue;

fn state_of(rt: &Runtime, id: u64) -> TaskState {
    rt.task_info(TaskId(id)).unwrap().state()
}

fn run(ats: &Ats, rt: &mut Runtime, id: u64) {
    assert_eq!(ats.run_step(rt, 0, Some(TaskId(id))), RunStep::Poll(TaskId(id)));
}

#[test]
fn task_state_codes_roundtrip() {
    for b in 1u8..=4 {
        assert_eq!(TaskState::from_u8(b).as_u8(), b);
    }
    assert_eq!(TaskState::from_u8(1), TaskState::Running);
    assert_eq!(TaskState::from_u8(4), TaskState::Exited);
    assert_eq!(TaskState::Blocked.as_u8(), 3);
}

#[test]
fn task_ids_come_from_the_counter() {
    let mut counter = 7u64;
    let a = TaskId::new(&mut counter);
    let b = TaskId::new(&mut counter);
    assert_eq!(a.as_u64(), 7);
    assert_eq!(b.as_u64(), 8);
    assert_eq!(counter, 9);
    let mut last = u64::MAX;
    assert_eq!(TaskId::new(&mut last), TaskId(u64::MAX));
    assert_eq!(last, 0);
}

#[test]
fn id_name_format() {
    assert_eq!(format_id_name(5, "main"), "Task(5, \"main\")");
    assert_eq!(format_id_name(0, ""), "Task(0, \"\")");
    assert_eq!(format_id_name(12, "a\"b"), "Task(12, \"a\\\"b\")");
    let t = TaskInner::new(TaskId(3), "worker".to_string(), 100);
    assert_eq!(t.id_name(), "Task(3, \"worker\")");
}

#[test]
fn new_tasks() {
    let t = TaskInner::new(TaskId(3), "idle".to_string(), 100);
    assert!(t.is_idle());
    assert!(!t.is_init());
    assert!(t.is_ready());
    assert_eq!(t.get_priority(), 1);
    assert_eq!(t.name(), "idle");
    assert_eq!(t.join(), None);
    assert_eq!(t.kstack_size(), 4096);
    let t = TaskInner::new_init(TaskId(4), "main".to_string(), 4096);
    assert_eq!(t.kstack_size(), 4096);
    assert_eq!(TaskInner::new(TaskId(9), "x".to_string(), 4097).kstack_size(), 8192);
    assert_eq!(TaskInner::new(TaskId(9), "x".to_string(), 0).kstack_size(), 0);
    assert!(!t.is_idle());
    assert!(t.is_init());
    let a = AsyncTaskInner::new(TaskId(5), "f".to_string());
    assert!(a.is_async());
    assert_eq!(a.id().as_u64(), 5);
    let ax = AxTask::new_async(a);
    assert!(ax.to_task_inner().is_none());
    let mut ax = AxTask::new_sync(TaskInner::new(TaskId(6), "t".to_string(), 1));
    assert_eq!(ax.join_sync(), None);
    ax.set_state(TaskState::Exited);
    ax.set_exit_code(3);
    assert_eq!(ax.join_sync(), Some(3));
    assert_eq!(ax.id_name(), "Task(6, \"t\")");
}

#[test]
fn current_task_slot() {
    let mut c = CurrentTask::new();
    assert_eq!(c.get_clone(), None);
    assert!(!c.ptr_eq(TaskId(1)));
    c.set_current(Some(TaskId(1)));
    assert!(c.ptr_eq(TaskId(1)));
    assert!(!c.ptr_eq(TaskId(2)));
    c.set_current(None);
    let d = c.clone();
    assert_eq!(d.get_clone(), None);
}

#[test]
fn spawn_and_run() {
    let mut rt = Runtime::new();
    let ats = Ats::new(0, 0);
    assert_eq!(api::current_id(&rt), Some(0));
    assert_eq!(api::spawn(&mut rt), ReadyPush { task: TaskId(1), priority: 1 });
    assert_eq!(api::spawn_async(&mut rt), ReadyPush { task: TaskId(2), priority: 1 });
    assert_eq!(api::spawn_init(&mut rt), ReadyPush { task: TaskId(3), priority: 1 });
    assert_eq!(
        api::spawn_raw(&mut rt, "idle".to_string(), 5000),
        ReadyPush { task: TaskId(4), priority: 1 }
    );
    assert!(rt.task_info(TaskId(3)).unwrap().is_init());
    assert_eq!(rt.task_info(TaskId(3)).unwrap().name(), "main");
    assert!(rt.task_info(TaskId(4)).unwrap().is_idle());
    assert!(rt.task_info(TaskId(2)).unwrap().is_async());
    assert!(rt.task_info(TaskId(9)).is_none());
    assert_eq!(rt.task_info(TaskId(1)).unwrap().kstack_size(), 0x40000);
    assert_eq!(rt.task_info(TaskId(4)).unwrap().kstack_size(), 8192);
    assert_eq!(rt.task_info(TaskId(2)).unwrap().kstack_size(), 0x40000);
    assert_eq!(ats.run_step(&mut rt, 0, None), RunStep::Idle);
    run(&ats, &mut rt, 1);
    assert_eq!(api::current_id(&rt), Some(1));
    assert_eq!(state_of(&rt, 1), TaskState::Running);
    assert_eq!(ats.run_step(&mut rt, 0, Some(TaskId(1))), RunStep::Skip);
}

#[test]
fn priority_and_yield() {
    let mut rt = Runtime::new();
    let ats = Ats::new(0, 0);
    api::spawn(&mut rt);
    run(&ats, &mut rt, 1);
    assert!(!api::set_priority(&mut rt, -1));
    assert_eq!(rt.task_info(TaskId(1)).unwrap().get_priority(), 1);
    assert!(api::set_priority(&mut rt, 5));
    assert_eq!(api::yield_now(&mut rt), ReadyPush { task: TaskId(1), priority: 5 });
    assert_eq!(api::current(&rt), None);
    assert_eq!(state_of(&rt, 1), TaskState::Ready);
    run(&ats, &mut rt, 1);
    assert_eq!(api::current(&rt), Some(TaskId(1)));
}

#[test]
fn wait_queue_wakes_in_order() {
    let mut rt = Runtime::new();
    let ats = Ats::new(0, 0);
    let mut wq = WaitQueue::with_capacity(4);
    for _ in 0..3 {
        api::spawn(&mut rt);
    }
    run(&ats, &mut rt, 1);
    rt.wait(&mut wq);
    run(&ats, &mut rt, 2);
    rt.wait(&mut wq);
    run(&ats, &mut rt, 3);
    rt.wait(&mut wq);
    assert_eq!(wq.len(), 3);
    assert_eq!(state_of(&rt, 2), TaskState::Blocked);
    assert!(rt.task_info(TaskId(2)).unwrap().in_wait_queue());
    assert_eq!(rt.notify_one(&mut wq, false), Some(ReadyPush { task: TaskId(1), priority: 1 }));
    assert_eq!(state_of(&rt, 1), TaskState::Ready);
    assert!(!rt.task_info(TaskId(1)).unwrap().in_wait_queue());
    assert_eq!(rt.notify_task(&mut wq, false, TaskId(3)), Some(ReadyPush { task: TaskId(3), priority: 1 }));
    assert_eq!(rt.notify_task(&mut wq, false, TaskId(3)), None);
    assert_eq!(rt.notify_all(&mut wq, false), vec![ReadyPush { task: TaskId(2), priority: 1 }]);
    assert!(wq.is_empty());
    assert_eq!(rt.notify_one(&mut wq, false), None);
}

#[test]
fn wait_until_and_cancel() {
    let mut rt = Runtime::new();
    let ats = Ats::new(0, 0);
    let mut wq = WaitQueue::new();
    api::spawn(&mut rt);
    run(&ats, &mut rt, 1);
    assert!(!rt.wait_until(&mut wq, false));
    assert!(wq.contains(TaskId(1)));
    // woken by something else than the queue: it withdraws on its own
    rt.wake(TaskId(1));
    run(&ats, &mut rt, 1);
    assert!(rt.wait_until(&mut wq, true));
    assert!(!wq.contains(TaskId(1)));
    assert!(!rt.task_info(TaskId(1)).unwrap().in_wait_queue());
    assert_eq!(api::current_id(&rt), Some(1));
}

#[test]
fn exit_wakes_joiners_and_join_returns_code() {
    let mut rt = Runtime::new();
    let ats = Ats::new(0, 0);
    api::spawn(&mut rt);
    api::spawn(&mut rt);
    run(&ats, &mut rt, 2);
    assert_eq!(rt.join_sync(TaskId(1)), None);
    assert_eq!(state_of(&rt, 2), TaskState::Blocked);
    run(&ats, &mut rt, 1);
    let out = api::exit(&mut rt, 7);
    assert_eq!(out.joiners, vec![ReadyPush { task: TaskId(2), priority: 1 }]);
    assert_eq!(out.exit_waiter, None);
    assert_eq!(rt.exited_tasks(), &[TaskId(1)]);
    assert_eq!(state_of(&rt, 1), TaskState::Exited);
    assert_eq!(state_of(&rt, 2), TaskState::Ready);
    run(&ats, &mut rt, 2);
    assert_eq!(rt.join_sync(TaskId(1)), Some(7));
    assert_eq!(rt.task_info(TaskId(1)).unwrap().join_sync(), Some(7));
}

#[test]
fn sleeping() {
    let mut rt = Runtime::new();
    let ats = Ats::new(0, 0);
    api::spawn(&mut rt);
    run(&ats, &mut rt, 1);
    assert!(!api::sleep_until(&mut rt, 10, 5));
    assert!(!api::sleep(&mut rt, 10, 0));
    assert_eq!(api::current_id(&rt), Some(1));
    assert!(api::sleep(&mut rt, 10, 5));
    assert_eq!(state_of(&rt, 1), TaskState::Blocked);
    assert!(rt.task_info(TaskId(1)).unwrap().in_timer_list());
    assert_eq!(api::current(&rt), None);
    rt.alarm_fired(TaskId(1));
    assert_eq!(state_of(&rt, 1), TaskState::Ready);
    assert!(!rt.task_info(TaskId(1)).unwrap().in_timer_list());
}

#[test]
fn notify_with_resched_marks_the_waker() {
    let mut rt = Runtime::new();
    let ats = Ats::new(0, 0);
    let mut wq = WaitQueue::new();
    api::spawn(&mut rt);
    api::spawn(&mut rt);
    run(&ats, &mut rt, 1);
    rt.wait(&mut wq);
    run(&ats, &mut rt, 2);
    // nobody to wake: no preemption asked
    let mut empty = WaitQueue::new();
    assert_eq!(rt.notify_one(&mut empty, true), None);
    assert!(!rt.task_info(TaskId(2)).unwrap().to_task_inner().unwrap().check_preempt_pending());
    assert_eq!(rt.notify_one(&mut wq, true), Some(ReadyPush { task: TaskId(1), priority: 1 }));
    assert!(rt.task_info(TaskId(2)).unwrap().to_task_inner().unwrap().check_preempt_pending());
    assert_eq!(state_of(&rt, 1), TaskState::Ready);
}

#[test]
fn async_task_blocks_after_poll() {
    let mut rt = Runtime::new();
    let ats = Ats::new(0, 0);
    api::spawn_raw_async(&mut rt, "co".to_string());
    run(&ats, &mut rt, 1);
    ats.finish_poll(&mut rt, TaskId(1));
    assert_eq!(state_of(&rt, 1), TaskState::Blocked);
    assert_eq!(rt.wake(TaskId(1)), ReadyPush { task: TaskId(1), priority: 1 });
    assert_eq!(state_of(&rt, 1), TaskState::Ready);
}

#[test]
fn irq_handlers_have_priority_zero() {
    let mut rt = Runtime::new();
    assert_eq!(api::register_irq_handler(&mut rt, 7), IntrPush { irq: 7, task: TaskId(1) });
    assert_eq!(api::register_async_irq_handler(&mut rt, 9), IntrPush { irq: 9, task: TaskId(2) });
    assert_eq!(rt.task_info(TaskId(1)).unwrap().get_priority(), 0);
    assert_eq!(rt.task_info(TaskId(2)).unwrap().get_priority(), 0);
    assert!(rt.task_info(TaskId(2)).unwrap().is_async());
}

#[test]
fn timed_waits() {
    let mut rt = Runtime::new();
    let ats = Ats::new(0, 0);
    let mut wq = WaitQueue::new();
    api::spawn(&mut rt);
    api::spawn(&mut rt);
    // task 1 times out: nobody notifies it, the alarm wakes it
    run(&ats, &mut rt, 1);
    rt.set_alarm_wakeup(TaskId(1));
    rt.wait(&mut wq);
    assert_eq!(rt.alarm_fired(TaskId(1)), ReadyPush { task: TaskId(1), priority: 1 });
    assert!(!rt.task_info(TaskId(1)).unwrap().in_timer_list());
    run(&ats, &mut rt, 1);
    assert_eq!(
        rt.wait_timeout_finish(&mut wq),
        TimedWait::Done { timed_out: true, cancel_alarm: false }
    );
    assert!(wq.is_empty());
    // task 2 is notified in time: its alarm is still armed
    run(&ats, &mut rt, 2);
    rt.set_alarm_wakeup(TaskId(2));
    rt.wait(&mut wq);
    rt.notify_one(&mut wq, false);
    run(&ats, &mut rt, 2);
    assert_eq!(
        rt.wait_timeout_finish(&mut wq),
        TimedWait::Done { timed_out: false, cancel_alarm: true }
    );
    assert!(!rt.task_info(TaskId(2)).unwrap().in_timer_list());
    // the conditional form
    assert_eq!(rt.wait_timeout_until(&mut wq, 5, 10, false), TimedWait::Blocked);
    assert!(wq.contains(TaskId(2)));
    rt.wake(TaskId(2));
    run(&ats, &mut rt, 2);
    assert_eq!(
        rt.wait_timeout_until(&mut wq, 6, 10, true),
        TimedWait::Done { timed_out: false, cancel_alarm: false }
    );
    assert!(wq.is_empty());
    assert_eq!(
        rt.wait_timeout_until(&mut wq, 10, 10, false),
        TimedWait::Done { timed_out: true, cancel_alarm: false }
    );
}

#[test]
fn async_sleep_polls() {
    let mut rt = Runtime::new();
    let ats = Ats::new(0, 0);
    api::spawn_async(&mut rt);
    run(&ats, &mut rt, 1);
    assert!(!rt.async_sleep_until_poll(TaskId(1), 9, 9));
    assert!(!rt.task_info(TaskId(1)).unwrap().in_timer_list());
    assert!(rt.async_sleep_until_poll(TaskId(1), 3, 9));
    assert!(rt.task_info(TaskId(1)).unwrap().in_timer_list());
}

#[test]
fn thread_entry_runs_once() {
    let mut rt = Runtime::new();
    let ats = Ats::new(0, 0);
    api::spawn(&mut rt);
    run(&ats, &mut rt, 1);
    assert!(rt.enter_thread());
    assert!(!rt.enter_thread());
    api::yield_now(&mut rt);
    run(&ats, &mut rt, 1);
    assert!(!rt.enter_thread());
}

#[test]
fn preemption_counter() {
    let mut t = TaskInner::new(TaskId(5), "worker".to_string(), 4096);
    assert!(t.can_preempt(0));
    assert!(!t.check_preempt_pending());
    t.disable_preempt();
    t.disable_preempt();
    assert!(t.can_preempt(2));
    t.set_preempt_pending(true);
    assert!(!t.check_preempt_pending());
    assert!(!t.enable_preempt(true));
    assert!(t.can_preempt(1));
    assert!(!t.enable_preempt(false));
    assert!(t.can_preempt(0));
    t.disable_preempt();
    assert!(t.enable_preempt(true));
    assert!(t.check_preempt_pending());
    // An enable without a matching disable wraps the counter.
    assert!(!t.enable_preempt(true));
    assert!(t.can_preempt(usize::MAX));
    t.disable_preempt();
    assert!(t.can_preempt(0));
}

#[test]
fn wait_queue_is_fifo() {
    let mut q = WaitQueue::new();
    q.push_back(TaskId(7));
    q.push_back(TaskId(3));
    q.push_back(TaskId(9));
    assert_eq!(q.pop_front(), Some(TaskId(7)));
    q.push_back(TaskId(1));
    assert_eq!(q.pop_front(), Some(TaskId(3)));
    assert_eq!(q.pop_front(), Some(TaskId(9)));
    assert_eq!(q.pop_front(), Some(TaskId(1)));
    assert_eq!(q.pop_front(), None);
}
