//! A cooperative scheduler whose ready queue is the task-scheduling
//! interrupt controller: added tasks go to the back of the queue at
//! priority 0, and the next task is the head of the queue.
use vstd::prelude::*;
use std::marker::PhantomData;
use crate::ats::ReadyPush;
use crate::task::TaskId;

verus! {

/// A task wrapper for the [`ATScheduler`].
pub struct AtsTask<T> {
    inner: T,
}

impl<T> AtsTask<T> {
    /// Creates a new [`AtsTask`] from the inner task struct.
    pub fn new(inner: T) -> (r: AtsTask<T>)
        ensures
            r.value() == inner,
    {
        AtsTask { inner }
    }

    pub closed spec fn value(&self) -> T {
        self.inner
    }

    /// Returns a reference to the inner task struct.
    pub fn inner(&self) -> (r: &T)
        ensures
            *r == self.value(),
    {
        &self.inner
    }
}

impl<T> std::ops::Deref for AtsTask<T> {
    type Target = T;

    /// The inner task struct, as [`AtsTask::inner`] gives it.
    fn deref(&self) -> (r: &T)
        ensures
            *r == self.value(),
    {
        &self.inner
    }
}

/// A cooperative scheduler on the controller whose registers start at
/// `base_addr`.
pub struct ATScheduler<T> {
    base_addr: usize,
    phantomdata: PhantomData<T>,
}

impl<T> ATScheduler<T> {
    /// Creates a new empty [`ATScheduler`].
    pub fn new(base_addr: usize) -> (r: ATScheduler<T>)
        ensures
            r.base() == base_addr,
    {
        ATScheduler { base_addr, phantomdata: PhantomData }
    }

    pub closed spec fn base(&self) -> usize {
        self.base_addr
    }

    /// The name of the scheduler.
    pub fn scheduler_name() -> (r: &'static str)
        ensures
            r@ == seq!['a', 't', 's'],
    {
        let name = "ats";
        proof {
            reveal_strlit("ats");
            assert(name@ =~= seq!['a', 't', 's']);
        }
        name
    }

    /// Nothing to set up.
    pub fn init(&mut self)
        ensures
            *final(self) == *old(self),
    {
    }

    /// Adds `task` at the back of the ready queue, at priority 0.
    pub fn add_task(&mut self, task: TaskId) -> (r: ReadyPush)
        ensures
            r == (ReadyPush { task, priority: 0 }),
            *final(self) == *old(self),
    {
        ReadyPush { task, priority: 0 }
    }

    /// Puts the task that ran last back, exactly as a newly added one.
    pub fn put_prev_task(&mut self, prev: TaskId, _preempt: bool) -> (r: ReadyPush)
        ensures
            r == (ReadyPush { task: prev, priority: 0 }),
            *final(self) == *old(self),
    {
        self.add_task(prev)
    }

    /// A timer tick never asks for rescheduling.
    pub fn task_tick(&mut self, _current: TaskId) -> (r: bool)
        ensures
            !r,
            *final(self) == *old(self),
    {
        false
    }

    /// Priorities cannot be changed in this scheduler.
    pub fn set_priority(&mut self, _task: TaskId, _prio: isize) -> (r: bool)
        ensures
            !r,
            *final(self) == *old(self),
    {
        false
    }
}

} // verus!
