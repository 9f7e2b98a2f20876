//! The task API: spawning, yielding, sleeping and exiting, for the task
//! that is current on the runtime.
use vstd::prelude::*;
use vstd::string::*;
use crate::ats::{
    wake_all, woken, has_task, new_async_view, new_sync_view, task_of, task_stack_size, with_task, ExitOutcome,
    IntrPush, ReadyPush, Runtime,
};
use crate::task::{round_up_4k, AsyncTaskInner, AxTask, TaskId, TaskInfo, TaskInner, TaskState, TaskView};

verus! {

/// The current task.
pub fn current(rt: &Runtime) -> (r: Option<TaskId>)
    ensures
        r == rt.current(),
{
    rt.current_task()
}

/// Gets the current task id, 0 while the executor itself runs.
pub fn current_id(rt: &Runtime) -> (r: Option<u64>)
    ensures
        r == Some(
            match rt.current() {
                Some(t) => t.0,
                None => 0,
            },
        ),
{
    match rt.current_task() {
        Some(t) => Some(t.as_u64()),
        None => Some(0),
    }
}

/// The tasks after [`spawn_raw`] adds a thread named `name` with a stack of
/// `stack_size` bytes, as task `id`.
pub open spec fn spawn_raw_tasks(s: Seq<TaskView>, id: u64, name: Seq<char>, stack_size: usize) -> Seq<
    TaskView,
> {
    s.push(new_sync_view(id, name, stack_size, false))
}

/// `spawn` is `spawn_raw` with an empty name and `axconfig::TASK_STACK_SIZE`
/// (0x40000) bytes: the thread it adds has no name, a 0x40000-byte stack,
/// is ready with priority 1, and is neither the init nor the idle task.
pub proof fn law_spawn_defaults(s: Seq<TaskView>, id: u64)
    ensures
        ({
            let t = spawn_raw_tasks(s, id, Seq::empty(), 0x40000).last();
            &&& t.id == id
            &&& t.name == Seq::<char>::empty()
            &&& t.stack_size == 0x40000
            &&& t.state == TaskState::Ready
            &&& t.priority == 1
            &&& !t.is_init
            &&& !t.is_idle
            &&& !t.is_async
        }),
{
    assert(Seq::<char>::empty().len() != seq!['i', 'd', 'l', 'e'].len());
    assert(round_up_4k(0x40000) == 0x40000);
}

/// Spawns a new thread with the given name and stack size.
///
/// Returns the push that places it in the ready queue.
pub fn spawn_raw(rt: &mut Runtime, name: String, stack_size: usize) -> (r: ReadyPush)
    requires
        old(rt).wf(),
        stack_size + 4095 <= usize::MAX,
        old(rt).next_id() < u64::MAX,
    ensures
        final(rt).wf(),
        r == (ReadyPush { task: TaskId(old(rt).next_id()), priority: 1 }),
        final(rt).tasks() == spawn_raw_tasks(old(rt).tasks(), old(rt).next_id(), name@, stack_size),
        final(rt).next_id() == old(rt).next_id() + 1,
        final(rt).current() == old(rt).current(),
        final(rt).exited() == old(rt).exited(),
        final(rt).exit_waiters() == old(rt).exit_waiters(),
{
    let id = rt.alloc_id();
    let task = AxTask::new_sync(TaskInner::new(id, name, stack_size));
    let priority = task.get_priority();
    rt.add_task(task);
    ReadyPush { task: id, priority }
}

/// Like [`spawn_raw`], for the init thread.
pub fn spawn_raw_init(rt: &mut Runtime, name: String, stack_size: usize) -> (r: ReadyPush)
    requires
        old(rt).wf(),
        stack_size + 4095 <= usize::MAX,
        old(rt).next_id() < u64::MAX,
    ensures
        final(rt).wf(),
        r == (ReadyPush { task: TaskId(old(rt).next_id()), priority: 1 }),
        final(rt).tasks() == old(rt).tasks().push(
            new_sync_view(old(rt).next_id(), name@, stack_size, true),
        ),
        final(rt).next_id() == old(rt).next_id() + 1,
        final(rt).current() == old(rt).current(),
        final(rt).exited() == old(rt).exited(),
        final(rt).exit_waiters() == old(rt).exit_waiters(),
{
    let id = rt.alloc_id();
    let task = AxTask::new_sync(TaskInner::new_init(id, name, stack_size));
    let priority = task.get_priority();
    rt.add_task(task);
    ReadyPush { task: id, priority }
}

/// Spawns a thread with an empty name and the default stack size: the same
/// as [`spawn_raw`] with those arguments.
pub fn spawn(rt: &mut Runtime) -> (r: ReadyPush)
    requires
        old(rt).wf(),
        old(rt).next_id() < u64::MAX,
    ensures
        final(rt).wf(),
        r == (ReadyPush { task: TaskId(old(rt).next_id()), priority: 1 }),
        final(rt).tasks() == spawn_raw_tasks(old(rt).tasks(), old(rt).next_id(), Seq::empty(), 0x40000),
        final(rt).next_id() == old(rt).next_id() + 1,
        final(rt).current() == old(rt).current(),
        final(rt).exited() == old(rt).exited(),
        final(rt).exit_waiters() == old(rt).exit_waiters(),
{
    let name = "";
    proof {
        reveal_strlit("");
        assert(name@ =~= Seq::<char>::empty());
    }
    spawn_raw(rt, name.to_owned(), task_stack_size())
}

/// Spawns the init thread, named `main`, with the default stack size.
pub fn spawn_init(rt: &mut Runtime) -> (r: ReadyPush)
    requires
        old(rt).wf(),
        old(rt).next_id() < u64::MAX,
    ensures
        final(rt).wf(),
        r == (ReadyPush { task: TaskId(old(rt).next_id()), priority: 1 }),
        final(rt).tasks() == old(rt).tasks().push(
            new_sync_view(old(rt).next_id(), seq!['m', 'a', 'i', 'n'], 0x40000, true),
        ),
        final(rt).next_id() == old(rt).next_id() + 1,
        final(rt).current() == old(rt).current(),
        final(rt).exited() == old(rt).exited(),
        final(rt).exit_waiters() == old(rt).exit_waiters(),
{
    let name = "main";
    proof {
        reveal_strlit("main");
        assert(name@ =~= seq!['m', 'a', 'i', 'n']);
    }
    spawn_raw_init(rt, name.to_owned(), task_stack_size())
}

/// Spawns a new future-backed task with the given name.
pub fn spawn_raw_async(rt: &mut Runtime, name: String) -> (r: ReadyPush)
    requires
        old(rt).wf(),
        old(rt).next_id() < u64::MAX,
    ensures
        final(rt).wf(),
        r == (ReadyPush { task: TaskId(old(rt).next_id()), priority: 1 }),
        final(rt).tasks() == old(rt).tasks().push(new_async_view(old(rt).next_id(), name@, 0)),
        final(rt).next_id() == old(rt).next_id() + 1,
        final(rt).current() == old(rt).current(),
        final(rt).exited() == old(rt).exited(),
        final(rt).exit_waiters() == old(rt).exit_waiters(),
{
    let id = rt.alloc_id();
    let task = AxTask::new_async(AsyncTaskInner::new(id, name));
    let priority = task.get_priority();
    rt.add_task(task);
    ReadyPush { task: id, priority }
}

/// Spawns a future-backed task with an empty name and the default stack
/// size `axconfig::TASK_STACK_SIZE` (0x40000 bytes).
pub fn spawn_async(rt: &mut Runtime) -> (r: ReadyPush)
    requires
        old(rt).wf(),
        old(rt).next_id() < u64::MAX,
    ensures
        final(rt).wf(),
        r == (ReadyPush { task: TaskId(old(rt).next_id()), priority: 1 }),
        final(rt).tasks() == old(rt).tasks().push(
            new_async_view(old(rt).next_id(), Seq::empty(), 0x40000),
        ),
        final(rt).tasks().last().stack_size == round_up_4k(0x40000),
        final(rt).next_id() == old(rt).next_id() + 1,
        final(rt).current() == old(rt).current(),
        final(rt).exited() == old(rt).exited(),
        final(rt).exit_waiters() == old(rt).exit_waiters(),
{
    let name = "";
    proof {
        reveal_strlit("");
        assert(name@ =~= Seq::<char>::empty());
    }
    let id = rt.alloc_id();
    let task = AxTask::new_async(AsyncTaskInner::with_stack_size(id, name.to_owned(), task_stack_size()));
    let priority = task.get_priority();
    rt.add_task(task);
    ReadyPush { task: id, priority }
}

/// Registers a new thread with priority 0 as the handler of interrupt
/// `irq_num`.
pub fn register_irq_handler(rt: &mut Runtime, irq_num: usize) -> (r: IntrPush)
    requires
        old(rt).wf(),
        old(rt).next_id() < u64::MAX,
    ensures
        final(rt).wf(),
        r == (IntrPush { irq: irq_num, task: TaskId(old(rt).next_id()) }),
        final(rt).tasks() == old(rt).tasks().push(
            TaskView {
                priority: 0,
                ..new_sync_view(old(rt).next_id(), Seq::empty(), 0x40000, false)
            },
        ),
        final(rt).next_id() == old(rt).next_id() + 1,
        final(rt).current() == old(rt).current(),
        final(rt).exited() == old(rt).exited(),
        final(rt).exit_waiters() == old(rt).exit_waiters(),
{
    let name = "";
    proof {
        reveal_strlit("");
        assert(name@ =~= Seq::<char>::empty());
    }
    let id = rt.alloc_id();
    let mut task = AxTask::new_sync(TaskInner::new(id, name.to_owned(), task_stack_size()));
    task.set_priority(0);
    rt.add_task(task);
    IntrPush { irq: irq_num, task: id }
}

/// Registers a new future-backed task with priority 0 as the handler of
/// interrupt `irq_num`.
pub fn register_async_irq_handler(rt: &mut Runtime, irq_num: usize) -> (r: IntrPush)
    requires
        old(rt).wf(),
        old(rt).next_id() < u64::MAX,
    ensures
        final(rt).wf(),
        r == (IntrPush { irq: irq_num, task: TaskId(old(rt).next_id()) }),
        final(rt).tasks() == old(rt).tasks().push(
            TaskView { priority: 0, ..new_async_view(old(rt).next_id(), Seq::empty(), 0) },
        ),
        final(rt).next_id() == old(rt).next_id() + 1,
        final(rt).current() == old(rt).current(),
        final(rt).exited() == old(rt).exited(),
        final(rt).exit_waiters() == old(rt).exit_waiters(),
{
    let name = "";
    proof {
        reveal_strlit("");
        assert(name@ =~= Seq::<char>::empty());
    }
    let id = rt.alloc_id();
    let mut task = AxTask::new_async(AsyncTaskInner::new(id, name.to_owned()));
    task.set_priority(0);
    rt.add_task(task);
    IntrPush { irq: irq_num, task: id }
}

/// Sets the priority of the current task; negative priorities are refused.
///
/// Returns `true` if the priority is set.
pub fn set_priority(rt: &mut Runtime, prio: isize) -> (r: bool)
    requires
        old(rt).wf(),
        prio >= 0 ==> old(rt).current() is Some,
    ensures
        final(rt).wf(),
        r == (prio >= 0),
        r ==> final(rt).tasks() == with_task(
            old(rt).tasks(),
            old(rt).current().unwrap().0,
            TaskView {
                priority: prio as usize,
                ..task_of(old(rt).tasks(), old(rt).current().unwrap().0)
            },
        ),
        !r ==> *final(rt) == *old(rt),
        final(rt).current() == old(rt).current(),
        final(rt).next_id() == old(rt).next_id(),
        final(rt).exited() == old(rt).exited(),
        final(rt).exit_waiters() == old(rt).exit_waiters(),
{
    if prio >= 0 {
        let c = rt.current_task().unwrap();
        rt.set_task_priority(c, prio as usize);
        true
    } else {
        false
    }
}

/// The current thread gives up the CPU; see [`Runtime::sync_yield`].
pub fn yield_now(rt: &mut Runtime) -> (r: ReadyPush)
    requires
        old(rt).wf(),
        old(rt).current_is_running_thread(),
    ensures
        final(rt).wf(),
        ({
            let c = old(rt).current().unwrap();
            &&& r == (ReadyPush { task: c, priority: task_of(old(rt).tasks(), c.0).priority })
            &&& final(rt).tasks() == with_task(
                old(rt).tasks(),
                c.0,
                TaskView { state: TaskState::Ready, ..task_of(old(rt).tasks(), c.0) },
            )
        }),
        final(rt).current() == None::<TaskId>,
        final(rt).next_id() == old(rt).next_id(),
        final(rt).exited() == old(rt).exited(),
        final(rt).exit_waiters() == old(rt).exit_waiters(),
{
    let c = rt.current_task().unwrap();
    rt.sync_yield(c)
}

/// The current thread sleeps until `deadline`; see
/// [`Runtime::sync_sleep_until`].
pub fn sleep_until(rt: &mut Runtime, now: u64, deadline: u64) -> (r: bool)
    requires
        old(rt).wf(),
        old(rt).current_is_running_thread(),
    ensures
        final(rt).wf(),
        r == (now < deadline),
        r ==> final(rt).tasks() == with_task(
            old(rt).tasks(),
            old(rt).current().unwrap().0,
            TaskView {
                state: TaskState::Blocked,
                in_timer_list: true,
                ..task_of(old(rt).tasks(), old(rt).current().unwrap().0)
            },
        ) && final(rt).current() == None::<TaskId>,
        !r ==> final(rt).tasks() == old(rt).tasks() && final(rt).current() == old(rt).current(),
        final(rt).next_id() == old(rt).next_id(),
        final(rt).exited() == old(rt).exited(),
        final(rt).exit_waiters() == old(rt).exit_waiters(),
{
    let c = rt.current_task().unwrap();
    rt.sync_sleep_until(c, now, deadline)
}

/// The current thread sleeps for `dur` nanoseconds from `now`.
pub fn sleep(rt: &mut Runtime, now: u64, dur: u64) -> (r: bool)
    requires
        old(rt).wf(),
        old(rt).current_is_running_thread(),
        now + dur <= u64::MAX,
    ensures
        final(rt).wf(),
        r == (dur > 0),
        r ==> final(rt).tasks() == with_task(
            old(rt).tasks(),
            old(rt).current().unwrap().0,
            TaskView {
                state: TaskState::Blocked,
                in_timer_list: true,
                ..task_of(old(rt).tasks(), old(rt).current().unwrap().0)
            },
        ) && final(rt).current() == None::<TaskId>,
        !r ==> final(rt).tasks() == old(rt).tasks() && final(rt).current() == old(rt).current(),
        final(rt).next_id() == old(rt).next_id(),
        final(rt).exited() == old(rt).exited(),
        final(rt).exit_waiters() == old(rt).exit_waiters(),
{
    sleep_until(rt, now, now + dur)
}

/// Exits the current thread; see [`Runtime::sync_exit`].
pub fn exit(rt: &mut Runtime, exit_code: i32) -> (r: ExitOutcome)
    requires
        old(rt).wf(),
        old(rt).current_is_running_thread(),
        !task_of(old(rt).tasks(), old(rt).current().unwrap().0).is_idle,
        crate::ats::all_asleep(
            old(rt).tasks(),
            task_of(old(rt).tasks(), old(rt).current().unwrap().0).joiners,
        ),
        crate::wait_queue::no_duplicates(
            task_of(old(rt).tasks(), old(rt).current().unwrap().0).joiners,
        ),
        old(rt).exit_waiters().len() > 0 ==> {
            let w = old(rt).exit_waiters()[0];
            &&& has_task(old(rt).tasks(), w.0)
            &&& task_of(old(rt).tasks(), w.0).in_wait_queue
            &&& !task_of(old(rt).tasks(), old(rt).current().unwrap().0).joiners.contains(w)
        },
    ensures
        final(rt).wf(),
        final(rt).exited() == old(rt).exited().push(old(rt).current().unwrap()),
        final(rt).current() == None::<TaskId>,
        final(rt).next_id() == old(rt).next_id(),
            ({
                let t0 = old(rt).tasks();
                let joiners = task_of(t0, old(rt).current().unwrap().0).joiners;
                let t1 = with_task(
                    t0,
                    old(rt).current().unwrap().0,
                    TaskView {
                        state: TaskState::Exited,
                        exit_code,
                        joiners: Seq::empty(),
                        ..task_of(t0, old(rt).current().unwrap().0)
                    },
                );
                let t2 = wake_all(t1, joiners);
                let ew = old(rt).exit_waiters();
                &&& r.joiners@.len() == joiners.len()
                &&& forall|k: int|
                    0 <= k < joiners.len() ==> #[trigger] r.joiners@[k] == (ReadyPush {
                        task: joiners[k],
                        priority: task_of(t0, joiners[k].0).priority,
                    })
                &&& if ew.len() > 0 {
                    &&& r.exit_waiter == Some(
                        ReadyPush { task: ew[0], priority: task_of(t0, ew[0].0).priority },
                    )
                    &&& final(rt).exit_waiters() == ew.drop_first()
                    &&& final(rt).tasks() == with_task(t2, ew[0].0, woken(task_of(t2, ew[0].0)))
                } else {
                    &&& r.exit_waiter is None
                    &&& final(rt).exit_waiters() == ew
                    &&& final(rt).tasks() == t2
                }
            }),
{
    let c = rt.current_task().unwrap();
    rt.sync_exit(c, exit_code)
}

} // verus!
