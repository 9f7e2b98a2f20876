//! The per-CPU executor and the runtime state it drives: the table of tasks,
//! the current task, the exited tasks and the queue of tasks waiting for some
//! task to exit.
//!
//! The hardware ready queue lives outside: every operation that makes a task
//! ready returns the [`ReadyPush`] that has to be written to it, and the
//! executor takes what the hardware hands back as an argument.
use vstd::prelude::*;
use crate::task::{
    align_up_4k, is_idle_name, round_up_4k, AsyncTaskInner, AxTask, CurrentTask, TaskId, TaskInfo, TaskInner,
    TaskState, TaskView,
};
use crate::wait_queue::{first_index, no_duplicates, without, WaitQueue};

verus! {

/// A task to be placed in the hardware ready queue with the given priority.
#[derive(Clone, Copy, Debug, PartialEq, Eq, Structural)]
pub struct ReadyPush {
    pub task: TaskId,
    pub priority: usize,
}

/// A task to be registered as the handler of an external interrupt.
#[derive(Clone, Copy, Debug, PartialEq, Eq, Structural)]
pub struct IntrPush {
    pub irq: usize,
    pub task: TaskId,
}

/// Whether some task in `s` has identifier `id`.
pub open spec fn has_task(s: Seq<TaskView>, id: u64) -> bool {
    exists|i: int| 0 <= i < s.len() && s[i].id == id
}

/// The position of the task with identifier `id` in `s`.
pub open spec fn task_index(s: Seq<TaskView>, id: u64) -> int {
    choose|i: int| 0 <= i < s.len() && s[i].id == id
}

/// The task with identifier `id` in `s`.
pub open spec fn task_of(s: Seq<TaskView>, id: u64) -> TaskView {
    s[task_index(s, id)]
}

/// `s` with the task of identifier `id` replaced by `t`.
pub open spec fn with_task(s: Seq<TaskView>, id: u64, t: TaskView) -> Seq<TaskView> {
    s.update(task_index(s, id), t)
}

/// `s` with a preemption asked of the current task `cur` when `ask` holds
/// and the current task is a thread.
pub open spec fn with_resched(s: Seq<TaskView>, cur: Option<TaskId>, ask: bool) -> Seq<TaskView> {
    match cur {
        Some(c) => if ask && has_task(s, c.0) && !task_of(s, c.0).is_async {
            with_task(s, c.0, TaskView { preempt_pending: true, ..task_of(s, c.0) })
        } else {
            s
        },
        None => s,
    }
}

/// A task once it has withdrawn from its wait queue and its alarm.
pub open spec fn withdrawn(t: TaskView) -> TaskView {
    TaskView { in_wait_queue: false, in_timer_list: false, ..t }
}

/// The tasks of `s` once task `id` has withdrawn from its wait queue and
/// its alarm (unchanged when it had neither).
pub open spec fn tasks_withdrawn(s: Seq<TaskView>, id: u64) -> Seq<TaskView> {
    if task_of(s, id).in_wait_queue || task_of(s, id).in_timer_list {
        with_task(s, id, withdrawn(task_of(s, id)))
    } else {
        s
    }
}

/// The queue `q` once `t` has withdrawn from it: only a task of `s` marked
/// as sleeping in a queue leaves it.
pub open spec fn queue_withdrawn(q: Seq<TaskId>, s: Seq<TaskView>, t: TaskId) -> Seq<TaskId> {
    if task_of(s, t.0).in_wait_queue {
        without(q, t)
    } else {
        q
    }
}

/// No two tasks of `s` share an identifier.
pub open spec fn ids_unique(s: Seq<TaskView>) -> bool {
    forall|i: int, j: int| 0 <= i < s.len() && 0 <= j < s.len() && s[i].id == s[j].id ==> i == j
}

/// A blocked task after it has been woken: ready and out of its wait queue.
pub open spec fn woken(t: TaskView) -> TaskView {
    TaskView { state: TaskState::Ready, in_wait_queue: false, ..t }
}

/// `s` with every task whose identifier occurs in `ids` woken.
pub open spec fn wake_all(s: Seq<TaskView>, ids: Seq<TaskId>) -> Seq<TaskView> {
    Seq::new(s.len(), |k: int| if ids.contains(TaskId(s[k].id)) { woken(s[k]) } else { s[k] })
}

/// Every task of `q` is in `s` and has marked itself as sleeping in a queue.
pub open spec fn all_asleep(s: Seq<TaskView>, q: Seq<TaskId>) -> bool {
    forall|k: int| 0 <= k < q.len() ==> has_task(s, #[trigger] q[k].0) && task_of(s, q[k].0).in_wait_queue
}

/// The view of a fresh thread-backed task.
pub open spec fn new_sync_view(id: u64, name: Seq<char>, stack_size: usize, is_init: bool) -> TaskView {
    TaskView {
        id,
        name,
        is_idle: is_idle_name(name),
        is_init,
        is_async: false,
        state: TaskState::Ready,
        priority: 1,
        in_wait_queue: false,
        in_timer_list: false,
        exit_code: 0,
        joiners: Seq::empty(),
        stack_size: round_up_4k(stack_size as nat) as usize,
        preempt_pending: false,
        preempt_count: 0,
        started: false,
    }
}

/// The view of a fresh future-backed task given a stack of `stack_size`
/// bytes (0: none).
pub open spec fn new_async_view(id: u64, name: Seq<char>, stack_size: usize) -> TaskView {
    TaskView {
        id,
        name,
        is_idle: false,
        is_init: false,
        is_async: true,
        state: TaskState::Ready,
        priority: 1,
        in_wait_queue: false,
        in_timer_list: false,
        exit_code: 0,
        joiners: Seq::empty(),
        stack_size: round_up_4k(stack_size as nat) as usize,
        preempt_pending: false,
        preempt_count: 0,
        started: false,
    }
}

/// Under unique identifiers, the task found at `i` is the one `task_index` names.
pub proof fn lemma_task_index(s: Seq<TaskView>, i: int)
    requires
        ids_unique(s),
        0 <= i < s.len(),
    ensures
        has_task(s, s[i].id),
        task_index(s, s[i].id) == i,
{
    let j = task_index(s, s[i].id);
    assert(0 <= j < s.len() && s[j].id == s[i].id);
}

/// The state of the task runtime on one CPU.
pub struct Runtime {
    tasks: Vec<AxTask>,
    current: CurrentTask,
    id_counter: u64,
    exited_tasks: Vec<TaskId>,
    wait_for_exit: WaitQueue,
}

impl Runtime {
    /// All tasks, in the order they were created.
    pub closed spec fn tasks(&self) -> Seq<TaskView> {
        self.tasks@.map_values(|t: AxTask| t.info())
    }

    /// The task running now, `None` while the executor itself runs.
    pub closed spec fn current(&self) -> Option<TaskId> {
        self.current.get()
    }

    /// The identifier the next task will get.
    pub closed spec fn next_id(&self) -> u64 {
        self.id_counter
    }

    /// The tasks that have exited, in the order they exited.
    pub closed spec fn exited(&self) -> Seq<TaskId> {
        self.exited_tasks@
    }

    /// The tasks waiting for any task to exit.
    pub closed spec fn exit_waiters(&self) -> Seq<TaskId> {
        self.wait_for_exit@
    }

    /// Identifiers are unique, positive and below the next one; the current
    /// task is a known task.
    pub open spec fn wf(&self) -> bool {
        &&& ids_unique(self.tasks())
        &&& forall|i: int|
            0 <= i < self.tasks().len() ==> 1 <= #[trigger] self.tasks()[i].id < self.next_id()
        &&& 1 <= self.next_id()
        &&& match self.current() {
            Some(t) => has_task(self.tasks(), t.0),
            None => true,
        }
    }

    /// The current task is a thread that is running.
    pub open spec fn current_is_running_thread(&self) -> bool {
        &&& self.current() is Some
        &&& has_task(self.tasks(), self.current().unwrap().0)
        &&& !task_of(self.tasks(), self.current().unwrap().0).is_async
        &&& task_of(self.tasks(), self.current().unwrap().0).state == TaskState::Running
    }

    /// An empty runtime; the first task gets identifier 1.
    pub fn new() -> (r: Runtime)
        ensures
            r.wf(),
            r.tasks() == Seq::<TaskView>::empty(),
            r.current() == None::<TaskId>,
            r.next_id() == 1,
            r.exited() == Seq::<TaskId>::empty(),
            r.exit_waiters() == Seq::<TaskId>::empty(),
    {
        let r = Runtime {
            tasks: Vec::new(),
            current: CurrentTask::new(),
            id_counter: 1,
            exited_tasks: Vec::new(),
            wait_for_exit: WaitQueue::new(),
        };
        assert(r.tasks() =~= Seq::<TaskView>::empty());
        r
    }

    /// The position of the task with identifier `id`.
    fn find(&self, id: TaskId) -> (r: Option<usize>)
        requires
            self.wf(),
        ensures
            match r {
                Some(i) => i < self.tasks().len() && self.tasks()[i as int].id == id.0
                    && task_index(self.tasks(), id.0) == i && has_task(self.tasks(), id.0),
                None => !has_task(self.tasks(), id.0),
            },
    {
        let n = self.tasks.len();
        let mut i: usize = 0;
        while i < n
            invariant
                self.wf(),
                n == self.tasks().len(),
                n == self.tasks@.len(),
                i <= n,
                forall|j: int| 0 <= j < i ==> self.tasks()[j].id != id.0,
            decreases n - i,
        {
            let t = self.tasks[i].id();
            if t.0 == id.0 {
                proof {
                    lemma_task_index(self.tasks(), i as int);
                }
                return Some(i);
            }
            i = i + 1;
        }
        None
    }
}

} // verus!

verus! {

/// Two runtimes agree on everything but the task table.
pub open spec fn same_besides_tasks(a: Runtime, b: Runtime) -> bool {
    &&& a.current() == b.current()
    &&& a.next_id() == b.next_id()
    &&& a.exited() == b.exited()
    &&& a.exit_waiters() == b.exit_waiters()
}

impl Runtime {
    /// Sets the state of the task at position `i`.
    fn set_state_at(&mut self, i: usize, state: TaskState)
        requires
            i < old(self).tasks().len(),
        ensures
            final(self).tasks() == old(self).tasks().update(
                i as int,
                TaskView { state, ..old(self).tasks()[i as int] },
            ),
            same_besides_tasks(*final(self), *old(self)),
            final(self).current == old(self).current,
    {
        self.tasks[i].set_state(state);
        assert(self.tasks() =~= old(self).tasks().update(
            i as int,
            TaskView { state, ..old(self).tasks()[i as int] },
        ));
    }

    /// Sets the priority of the task at position `i`.
    fn set_priority_at(&mut self, i: usize, priority: usize)
        requires
            i < old(self).tasks().len(),
        ensures
            final(self).tasks() == old(self).tasks().update(
                i as int,
                TaskView { priority, ..old(self).tasks()[i as int] },
            ),
            same_besides_tasks(*final(self), *old(self)),
            final(self).current == old(self).current,
    {
        self.tasks[i].set_priority(priority);
        assert(self.tasks() =~= old(self).tasks().update(
            i as int,
            TaskView { priority, ..old(self).tasks()[i as int] },
        ));
    }

    /// Sets the wait-queue flag of the task at position `i`.
    fn set_in_wait_queue_at(&mut self, i: usize, in_wait_queue: bool)
        requires
            i < old(self).tasks().len(),
        ensures
            final(self).tasks() == old(self).tasks().update(
                i as int,
                TaskView { in_wait_queue, ..old(self).tasks()[i as int] },
            ),
            same_besides_tasks(*final(self), *old(self)),
            final(self).current == old(self).current,
    {
        self.tasks[i].set_in_wait_queue(in_wait_queue);
        assert(self.tasks() =~= old(self).tasks().update(
            i as int,
            TaskView { in_wait_queue, ..old(self).tasks()[i as int] },
        ));
    }

    /// Marks the task at position `i` to be preempted, if it is a thread.
    fn set_preempt_pending_at(&mut self, i: usize)
        requires
            i < old(self).tasks().len(),
        ensures
            final(self).tasks() == old(self).tasks().update(
                i as int,
                if old(self).tasks()[i as int].is_async {
                    old(self).tasks()[i as int]
                } else {
                    TaskView { preempt_pending: true, ..old(self).tasks()[i as int] }
                },
            ),
            same_besides_tasks(*final(self), *old(self)),
            final(self).current == old(self).current,
    {
        self.tasks[i].set_preempt_pending(true);
        assert(self.tasks() =~= old(self).tasks().update(
            i as int,
            if old(self).tasks()[i as int].is_async {
                old(self).tasks()[i as int]
            } else {
                TaskView { preempt_pending: true, ..old(self).tasks()[i as int] }
            },
        ));
    }

    /// With `ask`, marks the current task (a thread) to be preempted as soon
    /// as preemption is enabled.
    fn request_resched(&mut self, ask: bool)
        requires
            old(self).wf(),
        ensures
            final(self).wf(),
            final(self).tasks() == with_resched(old(self).tasks(), old(self).current(), ask),
            same_besides_tasks(*final(self), *old(self)),
    {
        if ask {
            match self.current.get_clone() {
                Some(c) => {
                    match self.find(c) {
                        Some(i) => {
                            self.set_preempt_pending_at(i);
                            proof {
                                lemma_update_keeps_wf(*old(self), *self);
                            }
                        },
                        None => {},
                    }
                },
                None => {},
            }
        }
    }

    /// The current thread at a poll: at its first poll it enters its entry
    /// function (`true`), which thus runs once, and the thread exits with code
    /// 0 when the entry returns (see [`crate::api::exit`]); every later poll
    /// resumes it where it stopped (`false`).
    pub fn enter_thread(&mut self) -> (r: bool)
        requires
            old(self).wf(),
            old(self).current_is_running_thread(),
        ensures
            final(self).wf(),
            ({
                let c = old(self).current().unwrap();
                let tc = task_of(old(self).tasks(), c.0);
                &&& r == !tc.started
                &&& final(self).tasks() == with_task(
                    old(self).tasks(),
                    c.0,
                    TaskView { started: true, ..tc },
                )
            }),
            same_besides_tasks(*final(self), *old(self)),
    {
        let c = self.current.get_clone().unwrap();
        let i = self.find(c).unwrap();
        let ghost t0 = self.tasks();
        let first = self.tasks[i].enter_thread();
        assert(self.tasks() =~= with_task(
            t0,
            c.0,
            TaskView { started: true, ..task_of(t0, c.0) },
        ));
        proof {
            lemma_update_keeps_wf(*old(self), *self);
        }
        first
    }

    /// Sets the timer-list flag of the task at position `i`.
    fn set_in_timer_list_at(&mut self, i: usize, in_timer_list: bool)
        requires
            i < old(self).tasks().len(),
        ensures
            final(self).tasks() == old(self).tasks().update(
                i as int,
                TaskView { in_timer_list, ..old(self).tasks()[i as int] },
            ),
            same_besides_tasks(*final(self), *old(self)),
            final(self).current == old(self).current,
    {
        self.tasks[i].set_in_timer_list(in_timer_list);
        assert(self.tasks() =~= old(self).tasks().update(
            i as int,
            TaskView { in_timer_list, ..old(self).tasks()[i as int] },
        ));
    }

    /// Adds a new task with the next identifier.
    pub(crate) fn add_task(&mut self, task: AxTask)
        requires
            old(self).wf(),
            task.info().id == old(self).next_id(),
            old(self).next_id() < u64::MAX,
        ensures
            final(self).wf(),
            final(self).tasks() == old(self).tasks().push(task.info()),
            final(self).next_id() == old(self).next_id() + 1,
            final(self).current() == old(self).current(),
            final(self).exited() == old(self).exited(),
            final(self).exit_waiters() == old(self).exit_waiters(),
    {
        let ghost t = task.info();
        self.tasks.push(task);
        self.id_counter = self.id_counter + 1;
        assert(self.tasks() =~= old(self).tasks().push(t));
        assert forall|i: int| 0 <= i < self.tasks().len() implies 1 <= #[trigger] self.tasks()[i].id
            < self.next_id() by {
            if i < old(self).tasks().len() {
                assert(self.tasks()[i] == old(self).tasks()[i]);
            }
        }
        assert forall|i: int, j: int|
            0 <= i < self.tasks().len() && 0 <= j < self.tasks().len() && self.tasks()[i].id
                == self.tasks()[j].id implies i == j by {
            if i < old(self).tasks().len() {
                assert(self.tasks()[i] == old(self).tasks()[i]);
            }
            if j < old(self).tasks().len() {
                assert(self.tasks()[j] == old(self).tasks()[j]);
            }
        }
        proof {
            if let Some(c) = self.current() {
                let k = choose|k: int| 0 <= k < old(self).tasks().len() && old(self).tasks()[k].id
                    == c.0;
                assert(self.tasks()[k] == old(self).tasks()[k]);
            }
        }
    }

    /// Takes the next task identifier.
    pub(crate) fn alloc_id(&mut self) -> (r: TaskId)
        requires
            old(self).wf(),
            old(self).next_id() < u64::MAX,
        ensures
            r.0 == old(self).next_id(),
            *final(self) == *old(self),
    {
        let id = self.id_counter;
        TaskId(id)
    }

    /// The tasks that have exited, in the order they exited.
    pub fn exited_tasks(&self) -> (r: &[TaskId])
        ensures
            r@ == self.exited(),
    {
        self.exited_tasks.as_slice()
    }

    /// The current task.
    pub fn current_task(&self) -> (r: Option<TaskId>)
        ensures
            r == self.current(),
    {
        self.current.get_clone()
    }

    /// The view of the task with identifier `id`, if there is one.
    pub fn task_info(&self, id: TaskId) -> (r: Option<&AxTask>)
        requires
            self.wf(),
        ensures
            match r {
                Some(t) => has_task(self.tasks(), id.0) && t.info() == task_of(self.tasks(), id.0),
                None => !has_task(self.tasks(), id.0),
            },
    {
        match self.find(id) {
            Some(i) => Some(&self.tasks[i]),
            None => None,
        }
    }
}

} // verus!

verus! {

/// Updating tasks without touching identifiers keeps the runtime well formed.
proof fn lemma_update_keeps_wf(a: Runtime, b: Runtime)
    requires
        a.wf(),
        b.tasks().len() == a.tasks().len(),
        forall|k: int| 0 <= k < a.tasks().len() ==> #[trigger] b.tasks()[k].id == a.tasks()[k].id,
        b.next_id() == a.next_id(),
        b.current() is None || b.current() == a.current(),
    ensures
        b.wf(),
{
    assert forall|i: int| 0 <= i < b.tasks().len() implies 1 <= #[trigger] b.tasks()[i].id
        < b.next_id() by {
        assert(b.tasks()[i].id == a.tasks()[i].id);
    }
    assert forall|i: int, j: int|
        0 <= i < b.tasks().len() && 0 <= j < b.tasks().len() && b.tasks()[i].id
            == b.tasks()[j].id implies i == j by {
        assert(b.tasks()[i].id == a.tasks()[i].id);
        assert(b.tasks()[j].id == a.tasks()[j].id);
    }
    if let Some(c) = b.current() {
        let k = task_index(a.tasks(), c.0);
        assert(b.tasks()[k].id == a.tasks()[k].id);
    }
}

/// Two task tables with the same identifiers at the same positions find
/// every identifier at the same position.
proof fn lemma_same_ids_same_index(a: Seq<TaskView>, b: Seq<TaskView>, id: u64)
    requires
        ids_unique(a),
        b.len() == a.len(),
        forall|k: int| 0 <= k < a.len() ==> #[trigger] b[k].id == a[k].id,
        has_task(a, id),
    ensures
        ids_unique(b),
        has_task(b, id),
        task_index(b, id) == task_index(a, id),
{
    let i = task_index(a, id);
    assert(b[i].id == a[i].id);
    assert forall|x: int, y: int| 0 <= x < b.len() && 0 <= y < b.len() && b[x].id == b[y].id implies x
        == y by {
        assert(b[x].id == a[x].id);
        assert(b[y].id == a[y].id);
    }
    lemma_task_index(b, i);
}

/// Waking the tasks of `p` and then `x` wakes the tasks of `p.push(x)`.
proof fn lemma_wake_all_step(s: Seq<TaskView>, p: Seq<TaskId>, x: TaskId)
    requires
        ids_unique(s),
        has_task(s, x.0),
        !p.contains(x),
    ensures
        ids_unique(wake_all(s, p)),
        has_task(wake_all(s, p), x.0),
        task_index(wake_all(s, p), x.0) == task_index(s, x.0),
        task_of(wake_all(s, p), x.0) == task_of(s, x.0),
        with_task(wake_all(s, p), x.0, woken(task_of(wake_all(s, p), x.0))) == wake_all(
            s,
            p.push(x),
        ),
{
    let w = wake_all(s, p);
    lemma_same_ids_same_index(s, w, x.0);
    let i = task_index(s, x.0);
    assert(TaskId(s[i].id) == x);
    let lhs = with_task(w, x.0, woken(task_of(w, x.0)));
    let rhs = wake_all(s, p.push(x));
    assert forall|k: int| 0 <= k < s.len() implies lhs[k] == rhs[k] by {
        vstd::seq_lib::lemma_seq_contains_after_push(p, x, TaskId(s[k].id));
        if k != i {
            assert(TaskId(s[k].id) != x);
        }
    }
    assert(lhs =~= rhs);
}

/// Waking no task changes nothing.
proof fn lemma_wake_all_empty(s: Seq<TaskView>)
    ensures
        wake_all(s, Seq::empty()) == s,
{
    assert(wake_all(s, Seq::empty()) =~= s);
}

/// The outcome of a thread's exit.
pub struct ExitOutcome {
    /// The pushes for the tasks that were joining the exited task, in the
    /// order they started to wait.
    pub joiners: Vec<ReadyPush>,
    /// The push for the first task waiting for any task to exit, if any.
    pub exit_waiter: Option<ReadyPush>,
}

impl Runtime {
    /// Makes a task ready again (the waker of a task).
    pub fn wake(&mut self, task: TaskId) -> (r: ReadyPush)
        requires
            old(self).wf(),
            has_task(old(self).tasks(), task.0),
        ensures
            final(self).wf(),
            r == (ReadyPush { task, priority: task_of(old(self).tasks(), task.0).priority }),
            final(self).tasks() == with_task(
                old(self).tasks(),
                task.0,
                TaskView { state: TaskState::Ready, ..task_of(old(self).tasks(), task.0) },
            ),
            same_besides_tasks(*final(self), *old(self)),
    {
        let i = self.find(task).unwrap();
        let priority = self.tasks[i].get_priority();
        self.set_state_at(i, TaskState::Ready);
        proof {
            lemma_update_keeps_wf(*old(self), *self);
        }
        ReadyPush { task, priority }
    }

    /// Records that an alarm will wake `task`: it is now in the timer list.
    pub fn set_alarm_wakeup(&mut self, task: TaskId)
        requires
            old(self).wf(),
            has_task(old(self).tasks(), task.0),
        ensures
            final(self).wf(),
            final(self).tasks() == with_task(
                old(self).tasks(),
                task.0,
                TaskView { in_timer_list: true, ..task_of(old(self).tasks(), task.0) },
            ),
            same_besides_tasks(*final(self), *old(self)),
    {
        let i = self.find(task).unwrap();
        self.set_in_timer_list_at(i, true);
        proof {
            lemma_update_keeps_wf(*old(self), *self);
        }
    }

    /// The alarm of `task` went off: the task leaves the timer list and is
    /// made ready again.
    pub fn alarm_fired(&mut self, task: TaskId) -> (r: ReadyPush)
        requires
            old(self).wf(),
            has_task(old(self).tasks(), task.0),
        ensures
            final(self).wf(),
            r == (ReadyPush { task, priority: task_of(old(self).tasks(), task.0).priority }),
            final(self).tasks() == with_task(
                old(self).tasks(),
                task.0,
                TaskView {
                    state: TaskState::Ready,
                    in_timer_list: false,
                    ..task_of(old(self).tasks(), task.0)
                },
            ),
            same_besides_tasks(*final(self), *old(self)),
    {
        let i = self.find(task).unwrap();
        let priority = self.tasks[i].get_priority();
        self.set_in_timer_list_at(i, false);
        proof {
            lemma_update_keeps_wf(*old(self), *self);
        }
        self.set_state_at(i, TaskState::Ready);
        proof {
            lemma_update_keeps_wf(*old(self), *self);
            assert(self.tasks() =~= with_task(
                old(self).tasks(),
                task.0,
                TaskView {
                    state: TaskState::Ready,
                    in_timer_list: false,
                    ..task_of(old(self).tasks(), task.0)
                },
            ));
        }
        ReadyPush { task, priority }
    }

    /// Sets the priority of `task`.
    pub fn set_task_priority(&mut self, task: TaskId, priority: usize)
        requires
            old(self).wf(),
            has_task(old(self).tasks(), task.0),
        ensures
            final(self).wf(),
            final(self).tasks() == with_task(
                old(self).tasks(),
                task.0,
                TaskView { priority, ..task_of(old(self).tasks(), task.0) },
            ),
            same_besides_tasks(*final(self), *old(self)),
    {
        let i = self.find(task).unwrap();
        self.set_priority_at(i, priority);
        proof {
            lemma_update_keeps_wf(*old(self), *self);
        }
    }

    /// The current thread gives up the CPU: it becomes ready and goes back
    /// to the ready queue, and the executor runs again.
    pub fn sync_yield(&mut self, task: TaskId) -> (r: ReadyPush)
        requires
            old(self).wf(),
            old(self).current_is_running_thread(),
            old(self).current() == Some(task),
        ensures
            final(self).wf(),
            r == (ReadyPush { task, priority: task_of(old(self).tasks(), task.0).priority }),
            final(self).tasks() == with_task(
                old(self).tasks(),
                task.0,
                TaskView { state: TaskState::Ready, ..task_of(old(self).tasks(), task.0) },
            ),
            final(self).current() == None::<TaskId>,
            final(self).next_id() == old(self).next_id(),
            final(self).exited() == old(self).exited(),
            final(self).exit_waiters() == old(self).exit_waiters(),
    {
        let i = self.find(task).unwrap();
        let priority = self.tasks[i].get_priority();
        self.set_state_at(i, TaskState::Ready);
        self.current.set_current(None);
        proof {
            lemma_update_keeps_wf(*old(self), *self);
        }
        ReadyPush { task, priority }
    }

    /// The current thread goes to sleep in `wq` until it is notified; the
    /// executor runs again.
    pub fn wait(&mut self, wq: &mut WaitQueue)
        requires
            old(self).wf(),
            old(self).current_is_running_thread(),
        ensures
            final(self).wf(),
            final(wq)@ == old(wq)@.push(old(self).current().unwrap()),
            final(self).tasks() == with_task(
                old(self).tasks(),
                old(self).current().unwrap().0,
                TaskView {
                    state: TaskState::Blocked,
                    in_wait_queue: true,
                    ..task_of(old(self).tasks(), old(self).current().unwrap().0)
                },
            ),
            final(self).current() == None::<TaskId>,
            final(self).next_id() == old(self).next_id(),
            final(self).exited() == old(self).exited(),
            final(self).exit_waiters() == old(self).exit_waiters(),
    {
        let c = self.current.get_clone().unwrap();
        let i = self.find(c).unwrap();
        self.set_in_wait_queue_at(i, false);
        proof {
            lemma_update_keeps_wf(*old(self), *self);
        }
        wq.push_back(c);
        self.block_at(i);
        assert(self.tasks() =~= with_task(
            old(self).tasks(),
            c.0,
            TaskView {
                state: TaskState::Blocked,
                in_wait_queue: true,
                ..task_of(old(self).tasks(), c.0)
            },
        ));
    }

    /// Blocks the task at position `i` and returns to the executor, which
    /// then marks the task as sleeping in its queue.
    fn block_at(&mut self, i: usize)
        requires
            old(self).wf(),
            i < old(self).tasks().len(),
        ensures
            final(self).wf(),
            final(self).tasks() == old(self).tasks().update(
                i as int,
                TaskView {
                    state: TaskState::Blocked,
                    in_wait_queue: true,
                    ..old(self).tasks()[i as int]
                },
            ),
            final(self).current() == None::<TaskId>,
            final(self).next_id() == old(self).next_id(),
            final(self).exited() == old(self).exited(),
            final(self).exit_waiters() == old(self).exit_waiters(),
    {
        self.set_state_at(i, TaskState::Blocked);
        self.current.set_current(None);
        self.set_in_wait_queue_at(i, true);
        assert(self.tasks() =~= old(self).tasks().update(
            i as int,
            TaskView {
                state: TaskState::Blocked,
                in_wait_queue: true,
                ..old(self).tasks()[i as int]
            },
        ));
        proof {
            lemma_update_keeps_wf(*old(self), *self);
        }
    }

    /// A task woken from `wq` (or by a timer) withdraws from `wq`.
    ///
    /// A task that was woken by a timer also withdraws from `wq`, and one
    /// woken from `wq` has its alarm cancelled: it leaves the timer list.
    /// Returns whether an alarm was cancelled, so that the caller removes it
    /// from the timer.
    pub fn cancel_events(&mut self, wq: &mut WaitQueue, task: TaskId) -> (r: bool)
        requires
            old(self).wf(),
            has_task(old(self).tasks(), task.0),
        ensures
            final(self).wf(),
            r == task_of(old(self).tasks(), task.0).in_timer_list,
            final(wq)@ == queue_withdrawn(old(wq)@, old(self).tasks(), task),
            final(self).tasks() == tasks_withdrawn(old(self).tasks(), task.0),
            same_besides_tasks(*final(self), *old(self)),
    {
        let i = self.find(task).unwrap();
        let in_timer_list = self.tasks[i].in_timer_list();
        let in_wait_queue = self.tasks[i].in_wait_queue();
        if in_wait_queue {
            wq.retain_others(task);
            self.set_in_wait_queue_at(i, false);
            proof {
                lemma_update_keeps_wf(*old(self), *self);
            }
        }
        if in_timer_list {
            self.set_in_timer_list_at(i, false);
            proof {
                lemma_update_keeps_wf(*old(self), *self);
            }
        }
        assert(self.tasks() =~= tasks_withdrawn(old(self).tasks(), task.0));
        in_timer_list
    }

    /// One round of waiting until a condition holds: with `condition` true
    /// the current thread withdraws from `wq` and goes on (`true`); else it
    /// goes to sleep in `wq` (`false`) and evaluates the condition again when
    /// it is woken.
    pub fn wait_until(&mut self, wq: &mut WaitQueue, condition: bool) -> (r: bool)
        requires
            old(self).wf(),
            old(self).current_is_running_thread(),
        ensures
            final(self).wf(),
            r == condition,
            condition ==> {
                let c = old(self).current().unwrap();
                &&& final(self).current() == old(self).current()
                &&& final(wq)@ == queue_withdrawn(old(wq)@, old(self).tasks(), c)
                &&& final(self).tasks() == tasks_withdrawn(old(self).tasks(), c.0)
            },
            !condition ==> {
                &&& final(wq)@ == old(wq)@.push(old(self).current().unwrap())
                &&& final(self).tasks() == with_task(
                    old(self).tasks(),
                    old(self).current().unwrap().0,
                    TaskView {
                        state: TaskState::Blocked,
                        in_wait_queue: true,
                        ..task_of(old(self).tasks(), old(self).current().unwrap().0)
                    },
                )
                &&& final(self).current() == None::<TaskId>
            },
            final(self).next_id() == old(self).next_id(),
            final(self).exited() == old(self).exited(),
            final(self).exit_waiters() == old(self).exit_waiters(),
    {
        let c = self.current.get_clone().unwrap();
        if condition {
            self.cancel_events(wq, c);
            true
        } else {
            self.wait(wq);
            false
        }
    }

    /// Wakes the task that has waited longest in `wq`, asking nothing of the
    /// current task.
    pub(crate) fn notify_one_locked(&mut self, wq: &mut WaitQueue) -> (r: Option<ReadyPush>)
        requires
            old(self).wf(),
            old(wq)@.len() > 0 ==> has_task(old(self).tasks(), old(wq)@[0].0) && task_of(
                old(self).tasks(),
                old(wq)@[0].0,
            ).in_wait_queue,
        ensures
            final(self).wf(),
            old(wq)@.len() == 0 ==> r is None && final(wq)@ == old(wq)@ && final(self).tasks()
                == old(self).tasks(),
            old(wq)@.len() > 0 ==> {
                let t = old(wq)@[0];
                &&& r == Some(
                    ReadyPush { task: t, priority: task_of(old(self).tasks(), t.0).priority },
                )
                &&& final(wq)@ == old(wq)@.drop_first()
                &&& final(self).tasks() == with_task(
                    old(self).tasks(),
                    t.0,
                    woken(task_of(old(self).tasks(), t.0)),
                )
            },
            same_besides_tasks(*final(self), *old(self)),
    {
        match wq.pop_front() {
            Some(t) => {
                let i = self.find(t).unwrap();
                let priority = self.tasks[i].get_priority();
                self.set_in_wait_queue_at(i, false);
                self.set_state_at(i, TaskState::Ready);
                assert(self.tasks() =~= old(self).tasks().update(
                    i as int,
                    woken(old(self).tasks()[i as int]),
                ));
                proof {
                    lemma_update_keeps_wf(*old(self), *self);
                }
                Some(ReadyPush { task: t, priority })
            },
            None => None,
        }
    }
}

} // verus!

verus! {

impl Runtime {
    /// Wakes every task in `wq`, in the order they went to sleep, asking
    /// nothing of the current task.
    pub(crate) fn notify_all_locked(&mut self, wq: &mut WaitQueue) -> (r: Vec<ReadyPush>)
        requires
            old(self).wf(),
            all_asleep(old(self).tasks(), old(wq)@),
            no_duplicates(old(wq)@),
        ensures
            final(self).wf(),
            final(wq)@ == Seq::<TaskId>::empty(),
            final(self).tasks() == wake_all(old(self).tasks(), old(wq)@),
            r@.len() == old(wq)@.len(),
            forall|k: int|
                0 <= k < r@.len() ==> #[trigger] r@[k] == (ReadyPush {
                    task: old(wq)@[k],
                    priority: task_of(old(self).tasks(), old(wq)@[k].0).priority,
                }),
            same_besides_tasks(*final(self), *old(self)),
    {
        let ghost q0 = wq@;
        let ghost t0 = self.tasks();
        let mut r: Vec<ReadyPush> = Vec::new();
        proof {
            lemma_wake_all_empty(t0);
            assert(q0.subrange(0, 0) =~= Seq::<TaskId>::empty());
            assert(q0.subrange(0, q0.len() as int) =~= q0);
        }
        while !wq.is_empty()
            invariant
                self.wf(),
                same_besides_tasks(*self, *old(self)),
                t0 == old(self).tasks(),
                q0 == old(wq)@,
                ids_unique(t0),
                all_asleep(t0, q0),
                no_duplicates(q0),
                r@.len() <= q0.len(),
                wq@ == q0.subrange(r@.len() as int, q0.len() as int),
                self.tasks() == wake_all(t0, q0.subrange(0, r@.len() as int)),
                forall|k: int|
                    0 <= k < r@.len() ==> #[trigger] r@[k] == (ReadyPush {
                        task: q0[k],
                        priority: task_of(t0, q0[k].0).priority,
                    }),
            decreases wq@.len(),
        {
            let ghost n = r@.len() as int;
            let ghost x = q0[n];
            let ghost p = q0.subrange(0, n);
            proof {
                assert(wq@[0] == x);
                assert(!p.contains(x)) by {
                    if p.contains(x) {
                        let m = choose|m: int| 0 <= m < p.len() && p[m] == x;
                        assert(q0[m] == q0[n]);
                    }
                }
                assert(has_task(t0, q0[n].0));
                lemma_wake_all_step(t0, p, x);
                assert(q0.subrange(0, n + 1) =~= p.push(x));
            }
            let push = self.notify_one_locked(wq);
            let push = push.unwrap();
            r.push(push);
            proof {
                assert(wq@ =~= q0.subrange(r@.len() as int, q0.len() as int));
            }
        }
        proof {
            assert(q0.subrange(0, r@.len() as int) =~= q0);
        }
        r
    }

    /// Wakes `task` if it sleeps in `wq` (its first occurrence is removed),
    /// asking nothing of the current task.
    fn notify_task_locked(&mut self, wq: &mut WaitQueue, task: TaskId) -> (r: Option<ReadyPush>)
        requires
            old(self).wf(),
            has_task(old(self).tasks(), task.0),
            old(wq)@.contains(task) ==> task_of(old(self).tasks(), task.0).in_wait_queue,
        ensures
            final(self).wf(),
            !old(wq)@.contains(task) ==> r is None && final(wq)@ == old(wq)@ && final(self).tasks()
                == old(self).tasks(),
            old(wq)@.contains(task) ==> {
                &&& r == Some(
                    ReadyPush { task, priority: task_of(old(self).tasks(), task.0).priority },
                )
                &&& final(wq)@ == old(wq)@.remove(first_index(old(wq)@, task))
                &&& final(self).tasks() == with_task(
                    old(self).tasks(),
                    task.0,
                    woken(task_of(old(self).tasks(), task.0)),
                )
            },
            same_besides_tasks(*final(self), *old(self)),
    {
        match wq.position(task) {
            Some(index) => {
                wq.remove_at(index);
                let i = self.find(task).unwrap();
                let priority = self.tasks[i].get_priority();
                self.set_in_wait_queue_at(i, false);
                self.set_state_at(i, TaskState::Ready);
                assert(self.tasks() =~= old(self).tasks().update(
                    i as int,
                    woken(old(self).tasks()[i as int]),
                ));
                proof {
                    lemma_update_keeps_wf(*old(self), *self);
                }
                Some(ReadyPush { task, priority })
            },
            None => None,
        }
    }

    /// Wakes the task that has waited longest in `wq`. With `resched`, the
    /// current task (a thread) is marked to be preempted once a task was
    /// woken, so that it yields as soon as preemption is enabled.
    pub fn notify_one(&mut self, wq: &mut WaitQueue, resched: bool) -> (r: Option<ReadyPush>)
        requires
            old(self).wf(),
            old(wq)@.len() > 0 ==> has_task(old(self).tasks(), old(wq)@[0].0) && task_of(
                old(self).tasks(),
                old(wq)@[0].0,
            ).in_wait_queue,
        ensures
            final(self).wf(),
            old(wq)@.len() == 0 ==> r is None && final(wq)@ == old(wq)@ && final(self).tasks()
                == old(self).tasks(),
            old(wq)@.len() > 0 ==> {
                let t = old(wq)@[0];
                &&& r == Some(
                    ReadyPush { task: t, priority: task_of(old(self).tasks(), t.0).priority },
                )
                &&& final(wq)@ == old(wq)@.drop_first()
                &&& final(self).tasks() == with_resched(
                    with_task(old(self).tasks(), t.0, woken(task_of(old(self).tasks(), t.0))),
                    old(self).current(),
                    resched,
                )
            },
            same_besides_tasks(*final(self), *old(self)),
    {
        let r = self.notify_one_locked(wq);
        if r.is_some() {
            self.request_resched(resched);
        }
        r
    }

    /// Wakes every task in `wq`, in the order they went to sleep. With
    /// `resched`, the current task (a thread) is marked to be preempted once
    /// a task was woken.
    pub fn notify_all(&mut self, wq: &mut WaitQueue, resched: bool) -> (r: Vec<ReadyPush>)
        requires
            old(self).wf(),
            all_asleep(old(self).tasks(), old(wq)@),
            no_duplicates(old(wq)@),
        ensures
            final(self).wf(),
            final(wq)@ == Seq::<TaskId>::empty(),
            final(self).tasks() == with_resched(
                wake_all(old(self).tasks(), old(wq)@),
                old(self).current(),
                resched && old(wq)@.len() > 0,
            ),
            r@.len() == old(wq)@.len(),
            forall|k: int|
                0 <= k < r@.len() ==> #[trigger] r@[k] == (ReadyPush {
                    task: old(wq)@[k],
                    priority: task_of(old(self).tasks(), old(wq)@[k].0).priority,
                }),
            same_besides_tasks(*final(self), *old(self)),
    {
        let r = self.notify_all_locked(wq);
        let woke = r.len() > 0;
        self.request_resched(resched && woke);
        r
    }

    /// Wakes `task` if it sleeps in `wq` (its first occurrence is removed).
    /// With `resched`, the current task (a thread) is marked to be preempted
    /// once `task` was woken.
    pub fn notify_task(&mut self, wq: &mut WaitQueue, resched: bool, task: TaskId) -> (r: Option<
        ReadyPush,
    >)
        requires
            old(self).wf(),
            has_task(old(self).tasks(), task.0),
            old(wq)@.contains(task) ==> task_of(old(self).tasks(), task.0).in_wait_queue,
        ensures
            final(self).wf(),
            !old(wq)@.contains(task) ==> r is None && final(wq)@ == old(wq)@ && final(self).tasks()
                == old(self).tasks(),
            old(wq)@.contains(task) ==> {
                &&& r == Some(
                    ReadyPush { task, priority: task_of(old(self).tasks(), task.0).priority },
                )
                &&& final(wq)@ == old(wq)@.remove(first_index(old(wq)@, task))
                &&& final(self).tasks() == with_resched(
                    with_task(old(self).tasks(), task.0, woken(task_of(old(self).tasks(), task.0))),
                    old(self).current(),
                    resched,
                )
            },
            same_besides_tasks(*final(self), *old(self)),
    {
        let r = self.notify_task_locked(wq, task);
        if r.is_some() {
            self.request_resched(resched);
        }
        r
    }

    /// Exchanges the exit queue of the task at position `i` with `q`.
    fn swap_joiners_at(&mut self, i: usize, q: &mut WaitQueue)
        requires
            i < old(self).tasks().len(),
        ensures
            final(q)@ == old(self).tasks()[i as int].joiners,
            final(self).tasks() == old(self).tasks().update(
                i as int,
                TaskView { joiners: old(q)@, ..old(self).tasks()[i as int] },
            ),
            same_besides_tasks(*final(self), *old(self)),
            final(self).current == old(self).current,
    {
        self.tasks[i].swap_joiners(q);
        assert(self.tasks() =~= old(self).tasks().update(
            i as int,
            TaskView { joiners: old(q)@, ..old(self).tasks()[i as int] },
        ));
    }

    /// Marks the task at position `i` as exited with `code`.
    fn set_exited_at(&mut self, i: usize, code: i32)
        requires
            i < old(self).tasks().len(),
            !old(self).tasks()[i as int].is_async,
        ensures
            final(self).tasks() == old(self).tasks().update(
                i as int,
                TaskView {
                    state: TaskState::Exited,
                    exit_code: code,
                    ..old(self).tasks()[i as int]
                },
            ),
            same_besides_tasks(*final(self), *old(self)),
            final(self).current == old(self).current,
    {
        self.tasks[i].set_state(TaskState::Exited);
        self.tasks[i].set_exit_code(code);
        assert(self.tasks() =~= old(self).tasks().update(
            i as int,
            TaskView {
                state: TaskState::Exited,
                exit_code: code,
                ..old(self).tasks()[i as int]
            },
        ));
    }

    /// The current thread exits with `exit_code`: its joiners are woken, it
    /// is recorded as exited, the first task waiting for an exit is woken,
    /// and the executor runs again.
    pub fn sync_exit(&mut self, task: TaskId, exit_code: i32) -> (r: ExitOutcome)
        requires
            old(self).wf(),
            old(self).current_is_running_thread(),
            old(self).current() == Some(task),
            !task_of(old(self).tasks(), task.0).is_idle,
            all_asleep(old(self).tasks(), task_of(old(self).tasks(), task.0).joiners),
            no_duplicates(task_of(old(self).tasks(), task.0).joiners),
            old(self).exit_waiters().len() > 0 ==> {
                let w = old(self).exit_waiters()[0];
                &&& has_task(old(self).tasks(), w.0)
                &&& task_of(old(self).tasks(), w.0).in_wait_queue
                &&& !task_of(old(self).tasks(), task.0).joiners.contains(w)
            },
        ensures
            final(self).wf(),
            ({
                let t0 = old(self).tasks();
                let joiners = task_of(t0, task.0).joiners;
                let t1 = with_task(
                    t0,
                    task.0,
                    TaskView {
                        state: TaskState::Exited,
                        exit_code,
                        joiners: Seq::empty(),
                        ..task_of(t0, task.0)
                    },
                );
                let t2 = wake_all(t1, joiners);
                let ew = old(self).exit_waiters();
                &&& r.joiners@.len() == joiners.len()
                &&& forall|k: int|
                    0 <= k < joiners.len() ==> #[trigger] r.joiners@[k] == (ReadyPush {
                        task: joiners[k],
                        priority: task_of(t0, joiners[k].0).priority,
                    })
                &&& if ew.len() > 0 {
                    &&& r.exit_waiter == Some(
                        ReadyPush { task: ew[0], priority: task_of(t0, ew[0].0).priority },
                    )
                    &&& final(self).exit_waiters() == ew.drop_first()
                    &&& final(self).tasks() == with_task(t2, ew[0].0, woken(task_of(t2, ew[0].0)))
                } else {
                    &&& r.exit_waiter is None
                    &&& final(self).exit_waiters() == ew
                    &&& final(self).tasks() == t2
                }
            }),
            final(self).exited() == old(self).exited().push(task),
            final(self).current() == None::<TaskId>,
            final(self).next_id() == old(self).next_id(),
    {
        let ghost t0 = self.tasks();
        let i = self.find(task).unwrap();
        self.set_exited_at(i, exit_code);
        let mut joiners = WaitQueue::new();
        self.swap_joiners_at(i, &mut joiners);
        let ghost t1 = self.tasks();
        let ghost js = joiners@;
        proof {
            lemma_update_keeps_wf(*old(self), *self);
            assert(t1 =~= with_task(
                t0,
                task.0,
                TaskView {
                    state: TaskState::Exited,
                    exit_code,
                    joiners: Seq::empty(),
                    ..task_of(t0, task.0)
                },
            ));
            assert forall|k: int| 0 <= k < js.len() implies has_task(t1, #[trigger] js[k].0)
                && task_of(t1, js[k].0).in_wait_queue && task_of(t1, js[k].0).priority == task_of(
                t0,
                js[k].0,
            ).priority by {
                assert(has_task(t0, js[k].0));
                lemma_same_ids_same_index(t0, t1, js[k].0);
            }
        }
        let woken_joiners = self.notify_all_locked(&mut joiners);
        let ghost t2 = self.tasks();
        self.exited_tasks.push(task);
        let mut ew = WaitQueue::new();
        std::mem::swap(&mut ew, &mut self.wait_for_exit);
        proof {
            if ew@.len() > 0 {
                let w = ew@[0];
                lemma_same_ids_same_index(t0, t1, w.0);
                lemma_same_ids_same_index(t0, t2, w.0);
                assert(t2[task_index(t0, w.0)] == t1[task_index(t0, w.0)]);
                if task_index(t0, w.0) != task_index(t0, task.0) {
                    assert(t1[task_index(t0, w.0)] == t0[task_index(t0, w.0)]);
                }
            }
        }
        let exit_waiter = self.notify_one_locked(&mut ew);
        std::mem::swap(&mut ew, &mut self.wait_for_exit);
        self.current.set_current(None);
        proof {
            lemma_update_keeps_wf(*old(self), *self);
            if ew@.len() > 0 {
                let w = old(self).exit_waiters()[0];
                lemma_same_ids_same_index(t0, t1, w.0);
                lemma_same_ids_same_index(t0, t2, w.0);
                if task_index(t0, w.0) != task_index(t0, task.0) {
                    assert(t1[task_index(t0, w.0)] == t0[task_index(t0, w.0)]);
                }
            }
        }
        ExitOutcome { joiners: woken_joiners, exit_waiter }
    }
}

} // verus!

verus! {

impl Runtime {
    /// The current thread joins the thread `target`: with `target` exited it
    /// withdraws from its exit queue and gets the exit code; else it goes to
    /// sleep in that queue (`None`) and joins again when woken.
    #[verifier::spinoff_prover]
    #[verifier::rlimit(40)]
    pub fn join_sync(&mut self, target: TaskId) -> (r: Option<i32>)
        requires
            old(self).wf(),
            old(self).current_is_running_thread(),
            has_task(old(self).tasks(), target.0),
            !task_of(old(self).tasks(), target.0).is_async,
        ensures
            final(self).wf(),
            ({
                let c = old(self).current().unwrap();
                let t0 = old(self).tasks();
                let tt = task_of(t0, target.0);
                if tt.state == TaskState::Exited {
                    &&& r == Some(tt.exit_code)
                    &&& final(self).current() == old(self).current()
                    &&& final(self).tasks() == tasks_withdrawn(
                        with_task(
                            t0,
                            target.0,
                            TaskView { joiners: queue_withdrawn(tt.joiners, t0, c), ..tt },
                        ),
                        c.0,
                    )
                } else {
                    let t1 = with_task(t0, target.0, TaskView { joiners: tt.joiners.push(c), ..tt });
                    &&& r is None
                    &&& final(self).current() == None::<TaskId>
                    &&& final(self).tasks() == with_task(
                        t1,
                        c.0,
                        TaskView {
                            state: TaskState::Blocked,
                            in_wait_queue: true,
                            ..task_of(t1, c.0)
                        },
                    )
                }
            }),
            final(self).next_id() == old(self).next_id(),
            final(self).exited() == old(self).exited(),
            final(self).exit_waiters() == old(self).exit_waiters(),
    {
        let ghost t0 = self.tasks();
        let c = self.current.get_clone().unwrap();
        let ti = self.find(target).unwrap();
        let code = self.tasks[ti].join_sync();
        let mut q = WaitQueue::new();
        self.swap_joiners_at(ti, &mut q);
        let ghost ta = self.tasks();
        proof {
            lemma_update_keeps_wf(*old(self), *self);
            lemma_same_ids_same_index(t0, ta, c.0);
            lemma_same_ids_same_index(t0, ta, target.0);
        }
        self.wait_until(&mut q, code.is_some());
        let ghost tb = self.tasks();
        proof {
            lemma_same_ids_same_index(t0, tb, target.0);
            lemma_same_ids_same_index(t0, tb, c.0);
        }
        self.swap_joiners_at(ti, &mut q);
        proof {
            lemma_update_keeps_wf(*old(self), *self);
            let ci = task_index(t0, c.0);
            let tt = task_of(t0, target.0);
            if code.is_some() {
                if ci == ti {
                    assert(t0[ci].state == TaskState::Running);
                }
                let t1 = with_task(
                    t0,
                    target.0,
                    TaskView { joiners: queue_withdrawn(tt.joiners, t0, c), ..tt },
                );
                lemma_same_ids_same_index(t0, t1, c.0);
                lemma_same_ids_same_index(t0, t1, target.0);
                assert(task_of(ta, c.0) == task_of(t0, c.0));
                assert(task_of(t1, c.0) == task_of(t0, c.0));
                assert(self.tasks() =~= tasks_withdrawn(t1, c.0));
            } else {
                let t1 = with_task(t0, target.0, TaskView { joiners: tt.joiners.push(c), ..tt });
                lemma_same_ids_same_index(t0, t1, c.0);
                assert(self.tasks() =~= with_task(
                    t1,
                    c.0,
                    TaskView {
                        state: TaskState::Blocked,
                        in_wait_queue: true,
                        ..task_of(t1, c.0)
                    },
                ));
            }
        }
        code
    }

    /// The current thread sleeps until `deadline` (nanoseconds of the system
    /// clock, which reads `now`). Returns `true` when it blocked: it is then in
    /// the timer list, and an alarm at `deadline` must wake it (see
    /// [`Runtime::alarm_fired`]); with the deadline passed it goes on.
    pub fn sync_sleep_until(&mut self, task: TaskId, now: u64, deadline: u64) -> (r: bool)
        requires
            old(self).wf(),
            old(self).current_is_running_thread(),
            old(self).current() == Some(task),
        ensures
            final(self).wf(),
            r == (now < deadline),
            r ==> final(self).tasks() == with_task(
                old(self).tasks(),
                task.0,
                TaskView {
                    state: TaskState::Blocked,
                    in_timer_list: true,
                    ..task_of(old(self).tasks(), task.0)
                },
            ) && final(self).current() == None::<TaskId>,
            !r ==> final(self).tasks() == old(self).tasks() && final(self).current()
                == old(self).current(),
            final(self).next_id() == old(self).next_id(),
            final(self).exited() == old(self).exited(),
            final(self).exit_waiters() == old(self).exit_waiters(),
    {
        if now < deadline {
            let i = self.find(task).unwrap();
            self.set_in_timer_list_at(i, true);
            self.set_state_at(i, TaskState::Blocked);
            self.current.set_current(None);
            proof {
                lemma_update_keeps_wf(*old(self), *self);
                assert(self.tasks() =~= with_task(
                    old(self).tasks(),
                    task.0,
                    TaskView {
                        state: TaskState::Blocked,
                        in_timer_list: true,
                        ..task_of(old(self).tasks(), task.0)
                    },
                ));
            }
            true
        } else {
            false
        }
    }

    /// One poll of the future that sleeps the running `task` until
    /// `deadline`: while the clock (`now`) reads earlier it is pending
    /// (`true`) and sets an alarm at `deadline` to wake the task, which is
    /// then in the timer list; once due it completes (`false`) and changes
    /// nothing.
    pub fn async_sleep_until_poll(&mut self, task: TaskId, now: u64, deadline: u64) -> (r: bool)
        requires
            old(self).wf(),
            has_task(old(self).tasks(), task.0),
            task_of(old(self).tasks(), task.0).state == TaskState::Running,
        ensures
            final(self).wf(),
            r == (now < deadline),
            r ==> final(self).tasks() == with_task(
                old(self).tasks(),
                task.0,
                TaskView { in_timer_list: true, ..task_of(old(self).tasks(), task.0) },
            ),
            !r ==> final(self).tasks() == old(self).tasks(),
            same_besides_tasks(*final(self), *old(self)),
    {
        if now < deadline {
            self.set_alarm_wakeup(task);
            true
        } else {
            false
        }
    }

    /// Makes `task` the current task and marks it running.
    fn start_running(&mut self, task: TaskId)
        requires
            old(self).wf(),
            has_task(old(self).tasks(), task.0),
        ensures
            final(self).wf(),
            final(self).tasks() == with_task(
                old(self).tasks(),
                task.0,
                TaskView { state: TaskState::Running, ..task_of(old(self).tasks(), task.0) },
            ),
            final(self).current() == Some(task),
            final(self).next_id() == old(self).next_id(),
            final(self).exited() == old(self).exited(),
            final(self).exit_waiters() == old(self).exit_waiters(),
    {
        let i = self.find(task).unwrap();
        self.set_state_at(i, TaskState::Running);
        proof {
            lemma_update_keeps_wf(*old(self), *self);
        }
        self.current.set_current(Some(task));
        assert(self.tasks()[i as int].id == task.0);
    }

    /// Back in the executor after polling `task`: a future-backed task is
    /// marked blocked, and no task is current any more.
    fn end_running(&mut self, task: TaskId)
        requires
            old(self).wf(),
            has_task(old(self).tasks(), task.0),
        ensures
            final(self).wf(),
            final(self).tasks() == (if task_of(old(self).tasks(), task.0).is_async {
                with_task(
                    old(self).tasks(),
                    task.0,
                    TaskView { state: TaskState::Blocked, ..task_of(old(self).tasks(), task.0) },
                )
            } else {
                old(self).tasks()
            }),
            final(self).current() == None::<TaskId>,
            final(self).next_id() == old(self).next_id(),
            final(self).exited() == old(self).exited(),
            final(self).exit_waiters() == old(self).exit_waiters(),
    {
        let i = self.find(task).unwrap();
        if self.tasks[i].is_async() {
            self.set_state_at(i, TaskState::Blocked);
        }
        self.current.set_current(None);
        proof {
            lemma_update_keeps_wf(*old(self), *self);
        }
    }
}

/// The tasks once the executor has made `t` current to poll it.
pub open spec fn tasks_after_start(s: Seq<TaskView>, t: TaskId) -> Seq<TaskView> {
    with_task(s, t.0, TaskView { state: TaskState::Running, ..task_of(s, t.0) })
}

/// The tasks once the executor is back from polling `t`: a future-backed
/// task waits for its waker, a thread keeps its state.
pub open spec fn tasks_after_poll(s: Seq<TaskView>, t: TaskId) -> Seq<TaskView> {
    if task_of(s, t.0).is_async {
        with_task(s, t.0, TaskView { state: TaskState::Blocked, ..task_of(s, t.0) })
    } else {
        s
    }
}

/// What the executor does with the task the ready queue handed it.
#[derive(Clone, Copy, Debug, PartialEq, Eq, Structural)]
pub enum RunStep {
    /// The ready queue was empty.
    Idle,
    /// The task is already running elsewhere; it is not run twice.
    Skip,
    /// The task is now current and running: poll it.
    Poll(TaskId),
}

/// The executor of one CPU.
pub struct Ats {
    process_id: usize,
    stack_size: usize,
    pub cpu_id: usize,
}

/// `axconfig::TASK_STACK_SIZE`: the stack size of each task, 0x40000 bytes
/// in the platform configuration the crate ships with.
#[verifier::external_body]
pub(crate) fn task_stack_size() -> (r: usize)
    ensures
        r == 0x40000,
{
    axconfig::TASK_STACK_SIZE
}

impl Ats {
    /// An executor for process `process_id` on CPU `cpu_id`, with a stack of
    /// the default task size.
    pub fn new(process_id: usize, cpu_id: usize) -> (r: Ats)
        ensures
            r.process_id() == process_id,
            r.cpu() == cpu_id,
            r.stack_size() == 0x40000,
    {
        let size = task_stack_size();
        let stack_size = align_up_4k(size);
        Ats { process_id, stack_size, cpu_id }
    }

    pub closed spec fn process_id(&self) -> usize {
        self.process_id
    }

    pub closed spec fn cpu(&self) -> usize {
        self.cpu_id
    }

    pub closed spec fn stack_size(&self) -> usize {
        self.stack_size
    }

    /// Size in bytes of the executor's own stack.
    pub fn executor_stack_size(&self) -> (r: usize)
        ensures
            r == self.stack_size(),
    {
        self.stack_size
    }

    /// Decides what to do with the task fetched from the ready queue on CPU
    /// `this_cpu`: a running task (or an identifier of no task) is skipped,
    /// any other one is made current and running.
    pub fn run_step(&self, rt: &mut Runtime, this_cpu: usize, fetched: Option<TaskId>) -> (r:
        RunStep)
        requires
            old(rt).wf(),
            this_cpu == self.cpu(),
        ensures
            final(rt).wf(),
            match fetched {
                None => r == RunStep::Idle && *final(rt) == *old(rt),
                Some(t) => if !has_task(old(rt).tasks(), t.0) || task_of(old(rt).tasks(), t.0).state
                    == TaskState::Running {
                    r == RunStep::Skip && *final(rt) == *old(rt)
                } else {
                    &&& r == RunStep::Poll(t)
                    &&& final(rt).tasks() == tasks_after_start(old(rt).tasks(), t)
                    &&& final(rt).current() == Some(t)
                    &&& final(rt).next_id() == old(rt).next_id()
                    &&& final(rt).exited() == old(rt).exited()
                    &&& final(rt).exit_waiters() == old(rt).exit_waiters()
                },
            },
    {
        match fetched {
            None => RunStep::Idle,
            Some(t) => match rt.find(t) {
                None => RunStep::Skip,
                Some(i) => {
                    if rt.tasks[i].is_running() {
                        RunStep::Skip
                    } else {
                        rt.start_running(t);
                        RunStep::Poll(t)
                    }
                },
            },
        }
    }

    /// Back from polling `task`: see [`Runtime::end_running`].
    pub fn finish_poll(&self, rt: &mut Runtime, task: TaskId)
        requires
            old(rt).wf(),
            has_task(old(rt).tasks(), task.0),
        ensures
            final(rt).wf(),
            final(rt).tasks() == tasks_after_poll(old(rt).tasks(), task),
            final(rt).current() == None::<TaskId>,
            final(rt).next_id() == old(rt).next_id(),
            final(rt).exited() == old(rt).exited(),
            final(rt).exit_waiters() == old(rt).exit_waiters(),
    {
        rt.end_running(task);
    }
}

} // verus!

verus! {

/// How one round of a timed wait ended.
#[derive(Clone, Copy, Debug, PartialEq, Eq, Structural)]
pub enum TimedWait {
    /// The thread went to sleep in the queue; it looks again when woken.
    Blocked,
    /// The wait is over: `timed_out` tells whether the deadline passed
    /// first; with `cancel_alarm` the thread's alarm had not gone off and was
    /// withdrawn, and the caller removes it from the timer.
    Done { timed_out: bool, cancel_alarm: bool },
}

impl Runtime {
    /// The current thread, back after a timed wait in `wq` (begun with
    /// [`Runtime::wait`] once its alarm was set with
    /// [`Runtime::set_alarm_wakeup`]): it timed out if it is still
    /// marked as sleeping in the queue, i.e. nobody notified it. It then
    /// withdraws from `wq`.
    pub fn wait_timeout_finish(&mut self, wq: &mut WaitQueue) -> (r: TimedWait)
        requires
            old(self).wf(),
            old(self).current_is_running_thread(),
        ensures
            final(self).wf(),
            ({
                let c = old(self).current().unwrap();
                let tc = task_of(old(self).tasks(), c.0);
                &&& r == TimedWait::Done { timed_out: tc.in_wait_queue, cancel_alarm: tc.in_timer_list }
                &&& final(wq)@ == queue_withdrawn(old(wq)@, old(self).tasks(), c)
                &&& final(self).tasks() == tasks_withdrawn(old(self).tasks(), c.0)
            }),
            same_besides_tasks(*final(self), *old(self)),
    {
        let c = self.current.get_clone().unwrap();
        let i = self.find(c).unwrap();
        let timed_out = self.tasks[i].in_wait_queue();
        let cancel_alarm = self.cancel_events(wq, c);
        TimedWait::Done { timed_out, cancel_alarm }
    }

    /// One round of waiting until `condition` holds or the clock (`now`)
    /// reaches `deadline` (whose alarm was set with
    /// [`Runtime::set_alarm_wakeup`] before the first round): past the deadline the wait ends timed out, with the
    /// condition holding it ends in time; either way the thread withdraws
    /// from `wq`. Otherwise it goes to sleep in `wq`.
    pub fn wait_timeout_until(
        &mut self,
        wq: &mut WaitQueue,
        now: u64,
        deadline: u64,
        condition: bool,
    ) -> (r: TimedWait)
        requires
            old(self).wf(),
            old(self).current_is_running_thread(),
        ensures
            final(self).wf(),
            ({
                let c = old(self).current().unwrap();
                let tc = task_of(old(self).tasks(), c.0);
                if now < deadline && !condition {
                    &&& r == TimedWait::Blocked
                    &&& final(wq)@ == old(wq)@.push(c)
                    &&& final(self).tasks() == with_task(
                        old(self).tasks(),
                        c.0,
                        TaskView { state: TaskState::Blocked, in_wait_queue: true, ..tc },
                    )
                    &&& final(self).current() == None::<TaskId>
                } else {
                    &&& r == TimedWait::Done {
                        timed_out: now >= deadline,
                        cancel_alarm: tc.in_timer_list,
                    }
                    &&& final(self).current() == old(self).current()
                    &&& final(wq)@ == queue_withdrawn(old(wq)@, old(self).tasks(), c)
                    &&& final(self).tasks() == tasks_withdrawn(old(self).tasks(), c.0)
                }
            }),
            final(self).next_id() == old(self).next_id(),
            final(self).exited() == old(self).exited(),
            final(self).exit_waiters() == old(self).exit_waiters(),
    {
        let c = self.current.get_clone().unwrap();
        if now < deadline {
            if condition {
                let cancel_alarm = self.cancel_events(wq, c);
                TimedWait::Done { timed_out: false, cancel_alarm }
            } else {
                self.wait(wq);
                TimedWait::Blocked
            }
        } else {
            let cancel_alarm = self.cancel_events(wq, c);
            TimedWait::Done { timed_out: true, cancel_alarm }
        }
    }
}

} // verus!

verus! {

/// A thread that goes to sleep in a queue and is then woken from it is
/// ready again, out of the queue, with everything else about it — and about
/// every other task — as before it slept.
pub proof fn law_wait_then_notify(s: Seq<TaskView>, c: TaskId, other: u64)
    requires
        ids_unique(s),
        has_task(s, c.0),
        has_task(s, other),
        other != c.0,
    ensures
        ({
            let t1 = with_task(
                s,
                c.0,
                TaskView { state: TaskState::Blocked, in_wait_queue: true, ..task_of(s, c.0) },
            );
            let t2 = with_task(t1, c.0, woken(task_of(t1, c.0)));
            &&& task_of(t2, c.0) == (TaskView {
                state: TaskState::Ready,
                in_wait_queue: false,
                ..task_of(s, c.0)
            })
            &&& task_of(t2, other) == task_of(s, other)
        }),
{
    let t1 = with_task(
        s,
        c.0,
        TaskView { state: TaskState::Blocked, in_wait_queue: true, ..task_of(s, c.0) },
    );
    let t2 = with_task(t1, c.0, woken(task_of(t1, c.0)));
    let i = task_index(s, c.0);
    let j = task_index(s, other);
    lemma_task_index(s, i);
    lemma_task_index(s, j);
    assert(t1[i].id == c.0);
    lemma_same_ids_same_index(s, t1, c.0);
    lemma_same_ids_same_index(s, t1, other);
    lemma_same_ids_same_index(t1, t2, c.0);
    lemma_same_ids_same_index(t1, t2, other);
}

/// In a well-formed runtime no task has the identifier that the next
/// spawned task gets: identifiers are never reused.
pub proof fn law_fresh_id(rt: Runtime)
    requires
        rt.wf(),
    ensures
        !has_task(rt.tasks(), rt.next_id()),
        ids_unique(rt.tasks().push(new_async_view(rt.next_id(), Seq::empty(), 0))),
{
    let s = rt.tasks();
    let t = s.push(new_async_view(rt.next_id(), Seq::empty(), 0));
    if has_task(s, rt.next_id()) {
        let i = choose|i: int| 0 <= i < s.len() && s[i].id == rt.next_id();
        assert(s[i].id < rt.next_id());
    }
    assert forall|i: int, j: int| 0 <= i < t.len() && 0 <= j < t.len() && t[i].id == t[j].id implies i
        == j by {
        if i < s.len() {
            assert(t[i] == s[i]);
            assert(s[i].id < rt.next_id());
        }
        if j < s.len() {
            assert(t[j] == s[j]);
            assert(s[j].id < rt.next_id());
        }
    }
}

/// A thread that has exited stays exited with its exit code, whoever its
/// exit wakes: a join of it then answers that code.
pub proof fn law_join_after_exit(s: Seq<TaskView>, t: TaskId, code: i32, joiners: Seq<TaskId>)
    requires
        ids_unique(s),
        has_task(s, t.0),
        !joiners.contains(t),
    ensures
        ({
            let t1 = with_task(
                s,
                t.0,
                TaskView {
                    state: TaskState::Exited,
                    exit_code: code,
                    joiners: Seq::empty(),
                    ..task_of(s, t.0)
                },
            );
            let t2 = wake_all(t1, joiners);
            &&& task_of(t2, t.0).state == TaskState::Exited
            &&& task_of(t2, t.0).exit_code == code
        }),
{
    let t1 = with_task(
        s,
        t.0,
        TaskView {
            state: TaskState::Exited,
            exit_code: code,
            joiners: Seq::empty(),
            ..task_of(s, t.0)
        },
    );
    let t2 = wake_all(t1, joiners);
    let i = task_index(s, t.0);
    lemma_task_index(s, i);
    lemma_same_ids_same_index(s, t1, t.0);
    lemma_same_ids_same_index(t1, t2, t.0);
    assert(TaskId(t1[i].id) == t);
}

/// A thread that yields is ready, so the executor polls it again when the
/// ready queue hands it back (it is not skipped as running).
pub proof fn law_yield_then_run(s: Seq<TaskView>, c: TaskId)
    requires
        ids_unique(s),
        has_task(s, c.0),
    ensures
        ({
            let t1 = with_task(s, c.0, TaskView { state: TaskState::Ready, ..task_of(s, c.0) });
            &&& has_task(t1, c.0)
            &&& task_of(t1, c.0).state != TaskState::Running
        }),
{
    let t1 = with_task(s, c.0, TaskView { state: TaskState::Ready, ..task_of(s, c.0) });
    let i = task_index(s, c.0);
    lemma_task_index(s, i);
    lemma_same_ids_same_index(s, t1, c.0);
}

/// One round of the executor: a fetched task that is not running is made
/// running and current for its poll, so that fetching it again during the
/// poll skips it (no task is polled twice at once), and afterwards only
/// that task has changed: a future-backed one waits for its waker, a thread
/// is as its poll left it. Every other task is untouched by the round.
pub proof fn law_executor_round(s: Seq<TaskView>, t: TaskId, u: u64)
    requires
        ids_unique(s),
        has_task(s, t.0),
        task_of(s, t.0).state != TaskState::Running,
        has_task(s, u),
        u != t.0,
    ensures
        task_of(tasks_after_start(s, t), t.0).state == TaskState::Running,
        task_of(tasks_after_poll(tasks_after_start(s, t), t), t.0).state == (if task_of(
            s,
            t.0,
        ).is_async {
            TaskState::Blocked
        } else {
            TaskState::Running
        }),
        task_of(tasks_after_start(s, t), u) == task_of(s, u),
        task_of(tasks_after_poll(tasks_after_start(s, t), t), u) == task_of(s, u),
{
    let s1 = tasks_after_start(s, t);
    let s2 = tasks_after_poll(s1, t);
    lemma_same_ids_same_index(s, s1, t.0);
    lemma_same_ids_same_index(s, s1, u);
    lemma_task_index(s, task_index(s, t.0));
    lemma_same_ids_same_index(s1, s2, t.0);
    lemma_same_ids_same_index(s1, s2, u);
}

/// A thread's entry function runs exactly once: the first poll enters it,
/// and any later poll, which finds the thread started, only resumes it.
pub proof fn law_entry_once(s: Seq<TaskView>, c: TaskId)
    requires
        ids_unique(s),
        has_task(s, c.0),
        !task_of(s, c.0).started,
    ensures
        ({
            let t1 = with_task(s, c.0, TaskView { started: true, ..task_of(s, c.0) });
            &&& has_task(t1, c.0)
            &&& task_of(t1, c.0).started
            &&& with_task(t1, c.0, TaskView { started: true, ..task_of(t1, c.0) }) == t1
        }),
{
    let t1 = with_task(s, c.0, TaskView { started: true, ..task_of(s, c.0) });
    lemma_task_index(s, task_index(s, c.0));
    lemma_same_ids_same_index(s, t1, c.0);
    assert(with_task(t1, c.0, TaskView { started: true, ..task_of(t1, c.0) }) =~= t1);
}

/// One round of the executor on the tasks `s` with the fetched task `t`:
/// a task that is running (or unknown) is skipped; any other is started,
/// polled and put back.
pub open spec fn executor_round(s: Seq<TaskView>, t: TaskId) -> Seq<TaskView> {
    if !has_task(s, t.0) || task_of(s, t.0).state == TaskState::Running {
        s
    } else {
        tasks_after_poll(tasks_after_start(s, t), t)
    }
}

/// The tasks after the executor has handled the fetched tasks `f` in order.
pub open spec fn executor_rounds(s: Seq<TaskView>, f: Seq<TaskId>) -> Seq<TaskView>
    decreases f.len(),
{
    if f.len() == 0 {
        s
    } else {
        executor_round(executor_rounds(s, f.drop_last()), f.last())
    }
}

/// However many rounds the executor runs, it keeps every task and its
/// identifier, and a task that the ready queue never handed out is left
/// exactly as it was.
pub proof fn law_executor_rounds(s: Seq<TaskView>, f: Seq<TaskId>, u: u64)
    requires
        ids_unique(s),
        has_task(s, u),
        !f.contains(TaskId(u)),
    ensures
        executor_rounds(s, f).len() == s.len(),
        forall|k: int| 0 <= k < s.len() ==> #[trigger] executor_rounds(s, f)[k].id == s[k].id,
        ids_unique(executor_rounds(s, f)),
        has_task(executor_rounds(s, f), u),
        task_of(executor_rounds(s, f), u) == task_of(s, u),
    decreases f.len(),
{
    if f.len() > 0 {
        let g = f.drop_last();
        assert(!g.contains(TaskId(u))) by {
            if g.contains(TaskId(u)) {
                let k = choose|k: int| 0 <= k < g.len() && g[k] == TaskId(u);
                assert(f[k] == TaskId(u));
            }
        }
        law_executor_rounds(s, g, u);
        let p = executor_rounds(s, g);
        let t = f.last();
        assert(t != TaskId(u));
        if has_task(p, t.0) && task_of(p, t.0).state != TaskState::Running {
            law_executor_round(p, t, u);
            let i = task_index(p, t.0);
            assert(0 <= i < p.len() && p[i].id == t.0);
            let s1 = tasks_after_start(p, t);
            assert forall|k: int| 0 <= k < p.len() implies #[trigger] s1[k].id == p[k].id by {}
            lemma_same_ids_same_index(p, s1, t.0);
            lemma_same_ids_same_index(p, s1, u);
            let s2 = tasks_after_poll(s1, t);
            assert forall|k: int| 0 <= k < p.len() implies #[trigger] s2[k].id == s1[k].id by {}
            lemma_same_ids_same_index(s1, s2, u);
            assert forall|k: int| 0 <= k < s.len() implies #[trigger] s2[k].id == s[k].id by {
                assert(p[k].id == s[k].id);
                assert(s1[k].id == p[k].id);
                assert(s2[k].id == s1[k].id);
            }
        }
    }
}

/// Finishing a poll never rewrites a thread: whatever state its poll left
/// it in (exited with its code, ready, blocked, running), the thread's
/// record stays exactly as it was, so an exited thread stays exited and a
/// later join of it answers its exit code. Only a future-backed task is set
/// to wait for its waker, keeping everything else. No other task changes.
pub proof fn law_finish_poll(s: Seq<TaskView>, t: TaskId, u: u64)
    requires
        ids_unique(s),
        has_task(s, t.0),
        has_task(s, u),
    ensures
        has_task(tasks_after_poll(s, t), t.0),
        has_task(tasks_after_poll(s, t), u),
        !task_of(s, t.0).is_async ==> task_of(tasks_after_poll(s, t), t.0) == task_of(s, t.0),
        task_of(s, t.0).state == TaskState::Exited && !task_of(s, t.0).is_async ==> {
            &&& task_of(tasks_after_poll(s, t), t.0).state == TaskState::Exited
            &&& task_of(tasks_after_poll(s, t), t.0).exit_code == task_of(s, t.0).exit_code
        },
        task_of(s, t.0).is_async ==> {
            let a = task_of(tasks_after_poll(s, t), t.0);
            let b = task_of(s, t.0);
            &&& a.state == TaskState::Blocked
            &&& a.id == b.id && a.exit_code == b.exit_code && a.joiners == b.joiners
            &&& a.in_wait_queue == b.in_wait_queue && a.in_timer_list == b.in_timer_list
            &&& a.priority == b.priority && a.is_async
        },
        u != t.0 ==> task_of(tasks_after_poll(s, t), u) == task_of(s, u),
{
    let i = task_index(s, t.0);
    assert(0 <= i < s.len() && s[i].id == t.0);
    let s2 = tasks_after_poll(s, t);
    assert forall|k: int| 0 <= k < s.len() implies #[trigger] s2[k].id == s[k].id by {}
    lemma_same_ids_same_index(s, s2, t.0);
    lemma_same_ids_same_index(s, s2, u);
}

} // verus!
