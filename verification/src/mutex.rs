//! A sleeping mutex: a task that finds the mutex held goes to sleep in the
//! mutex's wait queue until the holder releases it.
use vstd::prelude::*;
use crate::ats::{
    all_asleep, queue_withdrawn, task_of, tasks_withdrawn, wake_all, with_resched, with_task, ReadyPush,
    Runtime,
};
use crate::task::{TaskId, TaskState, TaskView};
use crate::wait_queue::{no_duplicates, without, WaitQueue};

verus! {

/// The identifier that `current_id` reports for the runtime's current task.
pub open spec fn current_id_of(rt: Runtime) -> u64 {
    match rt.current() {
        Some(t) => t.0,
        None => 0,
    }
}

/// A mutual exclusion primitive protecting `data`; `owner_id` is 0 while it
/// is free, else the identifier of the task that holds it.
pub struct Mutex<T> {
    wq: WaitQueue,
    owner_id: u64,
    data: T,
}

impl<T> Mutex<T> {
    /// The identifier of the holder, 0 while free.
    pub closed spec fn owner(&self) -> u64 {
        self.owner_id
    }

    /// The tasks sleeping until the mutex is released.
    pub closed spec fn waiters(&self) -> Seq<TaskId> {
        self.wq@
    }

    /// The protected data.
    pub closed spec fn value(&self) -> T {
        self.data
    }

    /// Creates a new free mutex wrapping `data`.
    pub fn new(data: T) -> (r: Mutex<T>)
        ensures
            r.owner() == 0,
            r.waiters() == Seq::<TaskId>::empty(),
            r.value() == data,
    {
        Mutex { wq: WaitQueue::new(), owner_id: 0, data }
    }

    /// Consumes the mutex and returns the data.
    pub fn into_inner(self) -> (r: T)
        ensures
            r == self.value(),
    {
        self.data
    }

    /// Returns `true` if the lock is currently held.
    pub fn is_locked(&self) -> (r: bool)
        ensures
            r == (self.owner() != 0),
    {
        self.owner_id != 0
    }

    /// Takes the mutex for the current task if it is free.
    pub fn try_lock(&mut self, rt: &Runtime) -> (r: bool)
        ensures
            r == (old(self).owner() == 0),
            final(self).owner() == (if r {
                current_id_of(*rt)
            } else {
                old(self).owner()
            }),
            final(self).waiters() == old(self).waiters(),
            final(self).value() == old(self).value(),
    {
        let current_id = crate::api::current_id(rt).unwrap();
        if self.owner_id == 0 {
            self.owner_id = current_id;
            true
        } else {
            false
        }
    }

    /// A first attempt to lock: the current task takes a free mutex
    /// (`true`), or goes to sleep in its wait queue (`false`) and continues
    /// with [`Mutex::lock_retry`] once woken. Locking a mutex the task
    /// already holds is refused.
    pub fn lock(&mut self, rt: &mut Runtime) -> (r: bool)
        requires
            old(rt).wf(),
            old(self).owner() != 0 ==> old(rt).current_is_running_thread(),
            old(self).owner() != 0 ==> old(self).owner() != current_id_of(*old(rt)),
        ensures
            final(rt).wf(),
            r == (old(self).owner() == 0),
            r ==> final(self).owner() == current_id_of(*old(rt)) && final(self).waiters()
                == old(self).waiters() && *final(rt) == *old(rt),
            !r ==> {
                let c = old(rt).current().unwrap();
                &&& final(self).owner() == old(self).owner()
                &&& final(self).waiters() == old(self).waiters().push(c)
                &&& final(rt).tasks() == with_task(
                    old(rt).tasks(),
                    c.0,
                    TaskView {
                        state: TaskState::Blocked,
                        in_wait_queue: true,
                        ..task_of(old(rt).tasks(), c.0)
                    },
                )
                &&& final(rt).current() == None::<TaskId>
            },
            final(self).value() == old(self).value(),
            final(rt).next_id() == old(rt).next_id(),
            final(rt).exited() == old(rt).exited(),
            final(rt).exit_waiters() == old(rt).exit_waiters(),
    {
        let current_id = crate::api::current_id(rt).unwrap();
        if self.owner_id == 0 {
            self.owner_id = current_id;
            true
        } else {
            rt.wait_until(&mut self.wq, false);
            false
        }
    }

    /// The current task, woken while waiting for the mutex, looks again:
    /// a free mutex it withdraws from the wait queue and takes (`true`);
    /// a held one it sleeps on again (`false`).
    pub fn lock_retry(&mut self, rt: &mut Runtime) -> (r: bool)
        requires
            old(rt).wf(),
            old(rt).current_is_running_thread(),
        ensures
            final(rt).wf(),
            r == (old(self).owner() == 0),
            ({
                let c = old(rt).current().unwrap();
                let tc = task_of(old(rt).tasks(), c.0);
                if r {
                    &&& final(self).owner() == c.0
                    &&& final(rt).current() == old(rt).current()
                    &&& final(self).waiters() == queue_withdrawn(old(self).waiters(), old(rt).tasks(), c)
                    &&& final(rt).tasks() == tasks_withdrawn(old(rt).tasks(), c.0)
                } else {
                    &&& final(self).owner() == old(self).owner()
                    &&& final(self).waiters() == old(self).waiters().push(c)
                    &&& final(rt).tasks() == with_task(
                        old(rt).tasks(),
                        c.0,
                        TaskView { state: TaskState::Blocked, in_wait_queue: true, ..tc },
                    )
                    &&& final(rt).current() == None::<TaskId>
                }
            }),
            final(self).value() == old(self).value(),
            final(rt).next_id() == old(rt).next_id(),
            final(rt).exited() == old(rt).exited(),
            final(rt).exit_waiters() == old(rt).exit_waiters(),
    {
        let current_id = crate::api::current_id(rt).unwrap();
        let free = self.owner_id == 0;
        if rt.wait_until(&mut self.wq, free) {
            self.owner_id = current_id;
            true
        } else {
            false
        }
    }

    /// Releases the mutex held by the current task and wakes every task
    /// waiting for it, in the order they went to sleep; when some task was
    /// woken, the current thread is marked to be preempted.
    pub fn force_unlock(&mut self, rt: &mut Runtime) -> (r: Vec<ReadyPush>)
        requires
            old(rt).wf(),
            old(self).owner() == current_id_of(*old(rt)),
            all_asleep(old(rt).tasks(), old(self).waiters()),
            no_duplicates(old(self).waiters()),
        ensures
            final(rt).wf(),
            final(self).owner() == 0,
            final(self).waiters() == Seq::<TaskId>::empty(),
            final(rt).tasks() == with_resched(
                wake_all(old(rt).tasks(), old(self).waiters()),
                old(rt).current(),
                old(self).waiters().len() > 0,
            ),
            r@.len() == old(self).waiters().len(),
            forall|k: int|
                0 <= k < r@.len() ==> #[trigger] r@[k] == (ReadyPush {
                    task: old(self).waiters()[k],
                    priority: task_of(old(rt).tasks(), old(self).waiters()[k].0).priority,
                }),
            final(rt).current() == old(rt).current(),
            final(rt).next_id() == old(rt).next_id(),
            final(rt).exited() == old(rt).exited(),
            final(rt).exit_waiters() == old(rt).exit_waiters(),
            final(self).value() == old(self).value(),
    {
        self.owner_id = 0;
        rt.notify_all(&mut self.wq, true)
    }

    /// The data, for the holder.
    pub fn get(&self) -> (r: &T)
        ensures
            *r == self.value(),
    {
        &self.data
    }

    /// A mutable reference to the data; the exclusive borrow makes locking
    /// needless.
    pub fn get_mut(&mut self) -> (r: &mut T)
        ensures
            *r == old(self).value(),
            final(self).value() == *final(r),
            final(self).owner() == old(self).owner(),
            final(self).waiters() == old(self).waiters(),
    {
        &mut self.data
    }
}

} // verus!
