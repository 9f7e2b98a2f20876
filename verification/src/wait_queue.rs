//! The FIFO of tasks that sleep until they are notified.
use vstd::prelude::*;
use std::collections::VecDeque;
use crate::task::TaskId;

verus! {

/// A queue of sleeping tasks, woken in the order in which they went to sleep.
pub struct WaitQueue {
    queue: VecDeque<TaskId>,
}

/// No task occurs twice in `s`.
pub open spec fn no_duplicates(s: Seq<TaskId>) -> bool {
    forall|i: int, j: int| 0 <= i < s.len() && 0 <= j < s.len() && i != j ==> s[i] != s[j]
}

/// `s` without any occurrence of `t`, order kept.
pub open spec fn without(s: Seq<TaskId>, t: TaskId) -> Seq<TaskId> {
    s.filter(|x: TaskId| x != t)
}

/// The position of the first occurrence of `t` in `s`.
pub open spec fn first_index(s: Seq<TaskId>, t: TaskId) -> int {
    choose|i: int| 0 <= i < s.len() && s[i] == t && forall|j: int| 0 <= j < i ==> s[j] != t
}

/// The tasks that repeated `pop_front` calls hand out of a queue whose view
/// is `s`, until it is empty: the front, then the pops of the rest.
pub open spec fn pop_order(s: Seq<TaskId>) -> Seq<TaskId>
    decreases s.len(),
{
    if s.len() == 0 {
        Seq::empty()
    } else {
        seq![s[0]] + pop_order(s.subrange(1, s.len() as int))
    }
}

/// Popping a queue empty hands its tasks out in queue order.
pub proof fn lemma_pop_order(s: Seq<TaskId>)
    ensures
        pop_order(s) == s,
    decreases s.len(),
{
    if s.len() > 0 {
        lemma_pop_order(s.subrange(1, s.len() as int));
        assert(seq![s[0]] + s.subrange(1, s.len() as int) =~= s);
    }
}

/// Tasks leave a wait queue in the order in which they entered it: after
/// `push_back(a)` and then `push_back(b)` on `q`, popping the queue empty
/// hands out the tasks that were already waiting, then `a`, then `b`.
pub proof fn law_wake_order(q: WaitQueue, a: TaskId, b: TaskId)
    ensures
        pop_order(q@.push(a).push(b)) == pop_order(q@) + seq![a, b],
{
    lemma_pop_order(q@.push(a).push(b));
    lemma_pop_order(q@);
    assert(q@.push(a).push(b) =~= q@ + seq![a, b]);
}

impl View for WaitQueue {
    type V = Seq<TaskId>;

    closed spec fn view(&self) -> Seq<TaskId> {
        self.queue@
    }
}

impl WaitQueue {
    /// Creates an empty wait queue.
    pub fn new() -> (r: WaitQueue)
        ensures
            r@ == Seq::<TaskId>::empty(),
    {
        WaitQueue { queue: VecDeque::new() }
    }

    /// Creates an empty wait queue with space for at least `capacity` tasks.
    pub fn with_capacity(capacity: usize) -> (r: WaitQueue)
        ensures
            r@ == Seq::<TaskId>::empty(),
    {
        WaitQueue { queue: VecDeque::with_capacity(capacity) }
    }

    /// The number of tasks in the queue.
    pub fn len(&self) -> (r: usize)
        ensures
            r == self@.len(),
    {
        self.queue.len()
    }

    /// Whether no task waits in the queue.
    pub fn is_empty(&self) -> (r: bool)
        ensures
            r == (self@.len() == 0),
    {
        self.queue.len() == 0
    }

    /// Whether `task` waits in the queue.
    pub fn contains(&self, task: TaskId) -> (r: bool)
        ensures
            r == self@.contains(task),
    {
        match self.position(task) {
            Some(_) => true,
            None => false,
        }
    }

    /// The index of the first occurrence of `task`.
    pub fn position(&self, task: TaskId) -> (r: Option<usize>)
        ensures
            match r {
                Some(i) => i < self@.len() && self@[i as int] == task && i == first_index(
                    self@,
                    task,
                ),
                None => !self@.contains(task),
            },
    {
        let n = self.queue.len();
        let mut i: usize = 0;
        while i < n
            invariant
                n == self@.len(),
                i <= n,
                forall|j: int| 0 <= j < i ==> self@[j] != task,
            decreases n - i,
        {
            if self.queue[i].0 == task.0 {
                proof {
                    let k = first_index(self@, task);
                    assert(0 <= k < self@.len() && self@[k] == task && forall|j: int|
                        0 <= j < k ==> self@[j] != task);
                    if k < i {
                    } else if k > i {
                        assert(self@[i as int] == task);
                    }
                }
                return Some(i);
            }
            i = i + 1;
        }
        None
    }

    /// Appends `task` at the back.
    pub fn push_back(&mut self, task: TaskId)
        ensures
            final(self)@ == old(self)@.push(task),
    {
        self.queue.push_back(task);
    }

    /// Takes the task at the front, the one that has waited longest.
    pub fn pop_front(&mut self) -> (r: Option<TaskId>)
        ensures
            match r {
                Some(t) => old(self)@.len() > 0 && t == old(self)@[0] && final(self)@ == old(
                    self,
                )@.subrange(1, old(self)@.len() as int),
                None => old(self)@.len() == 0 && final(self)@ == old(self)@,
            },
    {
        self.queue.pop_front()
    }

    /// Removes the task at index `i`.
    pub fn remove_at(&mut self, i: usize) -> (r: TaskId)
        requires
            i < old(self)@.len(),
        ensures
            r == old(self)@[i as int],
            final(self)@ == old(self)@.remove(i as int),
    {
        self.queue.remove(i).unwrap()
    }

    /// Removes every occurrence of `task`, keeping the others in order.
    pub fn retain_others(&mut self, task: TaskId)
        ensures
            final(self)@ == without(old(self)@, task),
    {
        let ghost s = self@;
        let mut kept: VecDeque<TaskId> = VecDeque::new();
        let n = self.queue.len();
        let mut i: usize = 0;
        while i < n
            invariant
                s == self@,
                n == s.len(),
                i <= n,
                kept@ == without(s.subrange(0, i as int), task),
            decreases n - i,
        {
            let t = self.queue[i];
            proof {
                reveal(Seq::filter);
                assert(s.subrange(0, i + 1).drop_last() =~= s.subrange(0, i as int));
                assert(s.subrange(0, i + 1).last() == t);
            }
            if t.0 != task.0 {
                kept.push_back(t);
            }
            i = i + 1;
        }
        assert(s.subrange(0, n as int) == s);
        self.queue = kept;
    }
}

} // verus!
