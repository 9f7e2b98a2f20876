//! Task control blocks: identifiers, run states and the per-task metadata
//! shared by thread-backed and future-backed tasks.
use vstd::prelude::*;
use vstd::string::*;

verus! {

/// Decimal digits of `n`, most significant first, without leading zeros.
pub open spec fn decimal_digits(n: nat) -> Seq<char>
    decreases n,
{
    let d = (('0' as int) + (n % 10)) as char;
    if n < 10 {
        seq![d]
    } else {
        decimal_digits(n / 10).push(d)
    }
}

/// What `{:?}` prints for a string: the string quoted and escaped.
pub uninterp spec fn str_debug_repr(s: Seq<char>) -> Seq<char>;

/// `format!("{}", n)` for a `u64`: its decimal representation.
#[verifier::external_body]
fn u64_to_decimal(n: u64) -> (r: String)
    ensures
        r@ == decimal_digits(n as nat),
{
    format!("{}", n)
}

/// `format!("{:?}", s)` for a string slice; the escaping rules are std's and
/// are only named here.
#[verifier::external_body]
fn str_debug(s: &str) -> (r: String)
    ensures
        r@ == str_debug_repr(s@),
{
    format!("{:?}", s)
}

/// Rounds `size` up to the next multiple of 4096.
pub open spec fn round_up_4k(size: nat) -> nat {
    ((size + 4095) / 4096 * 4096) as nat
}

/// `memory_addr::align_up_4k`: the smallest multiple of 4096 that is not
/// below `size`. The crate computes `(size + 4095) & !4095`, so the sum must
/// not overflow.
#[verifier::external_body]
pub(crate) fn align_up_4k(size: usize) -> (r: usize)
    requires
        size + 4095 <= usize::MAX,
    ensures
        r == round_up_4k(size as nat),
{
    memory_addr::align_up_4k(size)
}

/// The label that `id_name` produces: `Task(<id>, <name:?>)`.
pub open spec fn id_name_spec(id: u64, name: Seq<char>) -> Seq<char> {
    seq!['T', 'a', 's', 'k', '('] + decimal_digits(id as nat) + seq![',', ' '] + str_debug_repr(
        name,
    ) + seq![')']
}

/// Builds `Task(<id>, <name:?>)`.
pub fn format_id_name(id: u64, name: &str) -> (r: String)
    ensures
        r@ == id_name_spec(id, name@),
{
    let head = "Task(";
    let sep = ", ";
    let tail = ")";
    proof {
        reveal_strlit("Task(");
        reveal_strlit(", ");
        reveal_strlit(")");
    }
    let mut r = head.to_owned();
    let digits = u64_to_decimal(id);
    r.append(digits.as_str());
    r.append(sep);
    let quoted = str_debug(name);
    r.append(quoted.as_str());
    r.append(tail);
    assert(r@ =~= id_name_spec(id, name@));
    r
}

/// Whether two strings hold the same characters.
pub fn str_equal(a: &str, b: &str) -> (r: bool)
    ensures
        r == (a@ == b@),
{
    let n = a.unicode_len();
    let m = b.unicode_len();
    if n != m {
        return false;
    }
    let mut i: usize = 0;
    while i < n
        invariant
            n == a@.len(),
            m == b@.len(),
            n == m,
            i <= n,
            forall|j: int| 0 <= j < i ==> a@[j] == b@[j],
        decreases n - i,
    {
        if a.get_char(i) != b.get_char(i) {
            return false;
        }
        i = i + 1;
    }
    assert(a@ =~= b@);
    true
}

/// The id counter after one id was taken from it (it wraps at the top).
pub open spec fn counter_after(c: u64) -> u64 {
    if c == u64::MAX {
        0
    } else {
        (c + 1) as u64
    }
}

/// The ids that `n` successive calls of [`TaskId::new`] hand out from a
/// counter that reads `c`.
pub open spec fn issued_ids(c: u64, n: nat) -> Seq<u64>
    decreases n,
{
    if n == 0 {
        Seq::empty()
    } else {
        seq![c] + issued_ids(counter_after(c), (n - 1) as nat)
    }
}

/// Until the counter wraps, successive calls of [`TaskId::new`] hand out
/// consecutive ids, so no id is handed out twice; from a counter that starts
/// at 1, the id 0 is never handed out.
pub proof fn law_task_ids_fresh(c: u64, n: nat)
    requires
        c + n <= u64::MAX + 1,
    ensures
        issued_ids(c, n).len() == n,
        forall|i: int| 0 <= i < n ==> #[trigger] issued_ids(c, n)[i] == c + i,
        forall|i: int, j: int|
            0 <= i < n && 0 <= j < n && i != j ==> issued_ids(c, n)[i] != issued_ids(c, n)[j],
        c >= 1 ==> !issued_ids(c, n).contains(0),
    decreases n,
{
    if n > 0 {
        let rest = issued_ids(counter_after(c), (n - 1) as nat);
        if n > 1 {
            assert(c < u64::MAX);
        }
        if c < u64::MAX {
            law_task_ids_fresh(counter_after(c), (n - 1) as nat);
        } else {
            assert(n == 1);
            assert(rest =~= Seq::<u64>::empty());
        }
        assert forall|i: int| 0 <= i < n implies #[trigger] issued_ids(c, n)[i] == c + i by {
            if i > 0 {
                assert(issued_ids(c, n)[i] == rest[i - 1]);
            }
        }
    }
}

/// A unique identifier for a task.
#[derive(Clone, Copy, Debug, PartialEq, Eq, Structural)]
pub struct TaskId(pub u64);

impl TaskId {
    /// Takes the next identifier from `counter` and advances it, wrapping
    /// like an atomic `fetch_add`.
    pub fn new(counter: &mut u64) -> (id: TaskId)
        ensures
            id.0 == *old(counter),
            *final(counter) == counter_after(*old(counter)),
    {
        let id = *counter;
        *counter = counter.wrapping_add(1);
        TaskId(id)
    }

    /// Convert the task ID to a `u64`.
    pub fn as_u64(&self) -> (r: u64)
        ensures
            r == self.0,
    {
        self.0
    }
}

/// The possible states of a task.
#[derive(Clone, Copy, Debug, PartialEq, Eq, Structural)]
pub enum TaskState {
    Running,
    Ready,
    Blocked,
    Exited,
}

/// The byte that encodes each state.
pub open spec fn state_code(s: TaskState) -> u8 {
    match s {
        TaskState::Running => 1,
        TaskState::Ready => 2,
        TaskState::Blocked => 3,
        TaskState::Exited => 4,
    }
}

impl TaskState {
    /// Decodes a state byte; only `1..=4` encode a state.
    pub fn from_u8(state: u8) -> (r: TaskState)
        requires
            1 <= state <= 4,
        ensures
            state_code(r) == state,
    {
        match state {
            1 => TaskState::Running,
            2 => TaskState::Ready,
            3 => TaskState::Blocked,
            _ => TaskState::Exited,
        }
    }

    /// Encodes the state as a byte.
    pub fn as_u8(&self) -> (r: u8)
        ensures
            r == state_code(*self),
    {
        match self {
            TaskState::Running => 1,
            TaskState::Ready => 2,
            TaskState::Blocked => 3,
            TaskState::Exited => 4,
        }
    }
}

/// Decoding the byte of a state gives the state back, and every valid byte
/// is the byte of the state it decodes to.
pub proof fn lemma_state_code_roundtrip(s: TaskState, b: u8)
    ensures
        1 <= state_code(s) <= 4,
        state_code(s) == b ==> (forall|t: TaskState| state_code(t) == b ==> t == s),
{
}

} // verus!

verus! {

/// Everything that the contracts say of one task.
pub struct TaskView {
    pub id: u64,
    pub name: Seq<char>,
    pub is_idle: bool,
    pub is_init: bool,
    pub is_async: bool,
    pub state: TaskState,
    pub priority: usize,
    pub in_wait_queue: bool,
    pub in_timer_list: bool,
    /// The exit code that a joiner receives (thread-backed tasks only).
    pub exit_code: i32,
    /// The tasks waiting for this one to exit, in the order they arrived.
    pub joiners: Seq<TaskId>,
    /// Size in bytes of the stack the task was given (0 for a future-backed
    /// task spawned without one).
    pub stack_size: usize,
    /// Whether a preemption of the task is pending.
    pub preempt_pending: bool,
    /// How many times preemption of the task is disabled.
    pub preempt_count: usize,
    /// Whether a thread has entered its entry function; that happens at its
    /// first poll, and only once.
    pub started: bool,
}

/// Read access to a task's metadata, shared by both kinds of tasks.
pub trait TaskInfo {
    spec fn info(&self) -> TaskView;

    /// Gets the ID of the task.
    fn id(&self) -> (r: TaskId)
        ensures
            r.0 == self.info().id,
    ;

    /// Gets the name of the task.
    fn name(&self) -> (r: &str)
        ensures
            r@ == self.info().name,
    ;

    /// Get a combined string of the task ID and name.
    fn id_name(&self) -> (r: String)
        ensures
            r@ == id_name_spec(self.info().id, self.info().name),
    ;

    fn state(&self) -> (r: TaskState)
        ensures
            r == self.info().state,
    ;

    fn set_state(&mut self, state: TaskState)
        ensures
            final(self).info() == (TaskView { state, ..old(self).info() }),
    ;

    fn is_running(&self) -> (r: bool)
        ensures
            r == (self.info().state == TaskState::Running),
    ;

    fn is_ready(&self) -> (r: bool)
        ensures
            r == (self.info().state == TaskState::Ready),
    ;

    fn is_blocked(&self) -> (r: bool)
        ensures
            r == (self.info().state == TaskState::Blocked),
    ;

    fn get_priority(&self) -> (r: usize)
        ensures
            r == self.info().priority,
    ;

    fn set_priority(&mut self, priority: usize)
        ensures
            final(self).info() == (TaskView { priority, ..old(self).info() }),
    ;

    fn is_init(&self) -> (r: bool)
        ensures
            r == self.info().is_init,
    ;

    fn is_idle(&self) -> (r: bool)
        ensures
            r == self.info().is_idle,
    ;

    fn in_wait_queue(&self) -> (r: bool)
        ensures
            r == self.info().in_wait_queue,
    ;

    fn set_in_wait_queue(&mut self, in_wait_queue: bool)
        ensures
            final(self).info() == (TaskView { in_wait_queue, ..old(self).info() }),
    ;

    fn in_timer_list(&self) -> (r: bool)
        ensures
            r == self.info().in_timer_list,
    ;

    fn set_in_timer_list(&mut self, in_timer_list: bool)
        ensures
            final(self).info() == (TaskView { in_timer_list, ..old(self).info() }),
    ;

    fn is_async(&self) -> (r: bool)
        ensures
            r == self.info().is_async,
    ;
}

/// A schedulable task body of either kind.
pub trait AbsTaskInner: TaskInfo {
}

/// The fields common to both kinds of task.
struct TaskMeta {
    id: TaskId,
    name: String,
    is_idle: bool,
    is_init: bool,
    state: TaskState,
    priority: usize,
    in_wait_queue: bool,
    in_timer_list: bool,
}

impl TaskMeta {
    /// A fresh ready task with the default priority 1.
    fn new_common(id: TaskId, name: String) -> (r: TaskMeta)
        ensures
            r.id == id,
            r.name@ == name@,
            !r.is_idle,
            !r.is_init,
            r.state == TaskState::Ready,
            r.priority == 1,
            !r.in_wait_queue,
            !r.in_timer_list,
    {
        TaskMeta {
            id,
            name,
            is_idle: false,
            is_init: false,
            state: TaskState::Ready,
            priority: 1,
            in_wait_queue: false,
            in_timer_list: false,
        }
    }
}

/// The inner structure of a thread-backed task.
pub struct TaskInner {
    meta: TaskMeta,
    exit_code: i32,
    wait_for_exit: crate::wait_queue::WaitQueue,
    kstack_size: usize,
    need_resched: bool,
    preempt_disable_count: usize,
    started: bool,
}

/// The inner structure of a future-backed task.
pub struct AsyncTaskInner {
    meta: TaskMeta,
    wait_for_exit: crate::wait_queue::WaitQueue,
    kstack_size: usize,
}

/// Whether `name` names the idle task.
pub open spec fn is_idle_name(name: Seq<char>) -> bool {
    name == seq!['i', 'd', 'l', 'e']
}

impl TaskInner {
    /// Creates a thread-backed task whose kernel stack holds `stack_size`
    /// bytes rounded up to whole 4K pages. A task named `idle` is the idle task.
    pub fn new(id: TaskId, name: String, stack_size: usize) -> (r: TaskInner)
        requires
            stack_size + 4095 <= usize::MAX,
        ensures
            r.info() == (TaskView {
                id: id.0,
                name: name@,
                is_idle: is_idle_name(name@),
                is_init: false,
                is_async: false,
                state: TaskState::Ready,
                priority: 1,
                in_wait_queue: false,
                in_timer_list: false,
                exit_code: 0,
                joiners: Seq::empty(),
                stack_size: round_up_4k(stack_size as nat) as usize,
                preempt_pending: false,
                preempt_count: 0,
                started: false,
            }),
    {
        let idle = "idle";
        proof {
            reveal_strlit("idle");
            assert(idle@ =~= seq!['i', 'd', 'l', 'e']);
        }
        let is_idle = str_equal(name.as_str(), idle);
        let mut meta = TaskMeta::new_common(id, name);
        meta.is_idle = is_idle;
        let kstack_size = align_up_4k(stack_size);
        let r = TaskInner {
            meta,
            exit_code: 0,
            wait_for_exit: crate::wait_queue::WaitQueue::new(),
            kstack_size,
            need_resched: false,
            preempt_disable_count: 0,
            started: false,
        };
        assert(r.info().joiners =~= Seq::<TaskId>::empty());
        r
    }

    /// Like [`TaskInner::new`], for the init task of the system.
    pub fn new_init(id: TaskId, name: String, stack_size: usize) -> (r: TaskInner)
        requires
            stack_size + 4095 <= usize::MAX,
        ensures
            r.info() == (TaskView {
                id: id.0,
                name: name@,
                is_idle: is_idle_name(name@),
                is_init: true,
                is_async: false,
                state: TaskState::Ready,
                priority: 1,
                in_wait_queue: false,
                in_timer_list: false,
                exit_code: 0,
                joiners: Seq::empty(),
                stack_size: round_up_4k(stack_size as nat) as usize,
                preempt_pending: false,
                preempt_count: 0,
                started: false,
            }),
    {
        let mut r = TaskInner::new(id, name, stack_size);
        r.meta.is_init = true;
        r
    }

    /// The exit code of a task that has exited, or `None` while it has not:
    /// a joiner then has to wait on the task's exit queue.
    pub fn join(&self) -> (r: Option<i32>)
        ensures
            r == (if self.info().state == TaskState::Exited {
                Some(self.info().exit_code)
            } else {
                None
            }),
    {
        match self.meta.state {
            TaskState::Exited => Some(self.exit_code),
            _ => None,
        }
    }

    /// Records the exit code.
    pub fn set_exit_code(&mut self, code: i32)
        ensures
            final(self).info() == (TaskView { exit_code: code, ..old(self).info() }),
    {
        self.exit_code = code;
    }

    /// Enters the thread at a poll: `true` the first time, when the entry
    /// function is to run; `false` on every later poll, which resumes it.
    pub fn enter(&mut self) -> (r: bool)
        ensures
            r == !old(self).info().started,
            final(self).info() == (TaskView { started: true, ..old(self).info() }),
    {
        let first = !self.started;
        self.started = true;
        first
    }

    /// Size in bytes of the kernel stack.
    pub fn kstack_size(&self) -> (r: usize)
        ensures
            r == self.info().stack_size,
    {
        self.kstack_size
    }

    /// Whether the task is marked to be preempted.
    pub open spec fn preempt_pending(&self) -> bool {
        self.info().preempt_pending
    }

    /// How many times preemption of the task is disabled.
    pub open spec fn preempt_count(&self) -> usize {
        self.info().preempt_count
    }

    /// Marks (or unmarks) the task to be preempted.
    pub fn set_preempt_pending(&mut self, pending: bool)
        ensures
            final(self).info() == (TaskView { preempt_pending: pending, ..old(self).info() }),
    {
        self.need_resched = pending;
    }

    /// Whether preemption is disabled exactly `current_disable_count` times.
    pub fn can_preempt(&self, current_disable_count: usize) -> (r: bool)
        ensures
            r == (self.preempt_count() == current_disable_count),
    {
        self.preempt_disable_count == current_disable_count
    }

    /// Disables preemption once more (the counter wraps, as an atomic
    /// `fetch_add` does).
    pub fn disable_preempt(&mut self)
        ensures
            final(self).info() == (TaskView {
                preempt_count: count_after_disable(old(self).preempt_count()),
                ..old(self).info()
            }),
    {
        self.preempt_disable_count = self.preempt_disable_count.wrapping_add(1);
    }

    /// Enables preemption once (the counter wraps, as an atomic `fetch_sub`
    /// does). Returns whether the task must now be rescheduled: this was the
    /// last disable, `resched` asks for it, and a preemption is pending.
    pub fn enable_preempt(&mut self, resched: bool) -> (r: bool)
        ensures
            final(self).info() == (TaskView {
                preempt_count: count_after_enable(old(self).preempt_count()),
                ..old(self).info()
            }),
            r == (old(self).preempt_count() == 1 && resched && old(self).preempt_pending()),
    {
        let prev = self.preempt_disable_count;
        self.preempt_disable_count = prev.wrapping_sub(1);
        if prev == 1 && resched {
            self.check_preempt_pending()
        } else {
            false
        }
    }

    /// Whether the task is to be preempted now: a preemption is pending and
    /// preemption is not disabled.
    pub fn check_preempt_pending(&self) -> (r: bool)
        ensures
            r == (self.preempt_pending() && self.preempt_count() == 0),
    {
        self.need_resched && self.can_preempt(0)
    }
}

/// The preemption counter after one more disable.
pub open spec fn count_after_disable(c: usize) -> usize {
    if c == usize::MAX {
        0
    } else {
        (c + 1) as usize
    }
}

/// The preemption counter after one enable.
pub open spec fn count_after_enable(c: usize) -> usize {
    if c == 0 {
        usize::MAX
    } else {
        (c - 1) as usize
    }
}

/// Disabling and then enabling preemption leaves the counter as it was, and
/// a task whose preemption was not disabled may be preempted again.
pub proof fn law_preempt_pair(c: usize)
    ensures
        count_after_enable(count_after_disable(c)) == c,
        (c == 0 ==> count_after_disable(c) == 1),
{
}

impl AsyncTaskInner {
    /// Creates a future-backed task without a stack of its own.
    pub fn new(id: TaskId, name: String) -> (r: AsyncTaskInner)
        ensures
            r.info() == crate::ats::new_async_view(id.0, name@, 0),
    {
        AsyncTaskInner::with_stack_size(id, name, 0)
    }

    /// Creates a future-backed task given a stack of `stack_size` bytes
    /// rounded up to whole 4K pages.
    pub fn with_stack_size(id: TaskId, name: String, stack_size: usize) -> (r: AsyncTaskInner)
        requires
            stack_size + 4095 <= usize::MAX,
        ensures
            r.info() == crate::ats::new_async_view(id.0, name@, stack_size),
    {
        let kstack_size = align_up_4k(stack_size);
        let r = AsyncTaskInner {
            meta: TaskMeta::new_common(id, name),
            wait_for_exit: crate::wait_queue::WaitQueue::new(),
            kstack_size,
        };
        assert(r.info().joiners =~= Seq::<TaskId>::empty());
        r
    }
}

} // verus!

verus! {

impl TaskInfo for TaskInner {
    closed spec fn info(&self) -> TaskView {
        TaskView {
            id: self.meta.id.0,
            name: self.meta.name@,
            is_idle: self.meta.is_idle,
            is_init: self.meta.is_init,
            is_async: false,
            state: self.meta.state,
            priority: self.meta.priority,
            in_wait_queue: self.meta.in_wait_queue,
            in_timer_list: self.meta.in_timer_list,
            exit_code: self.exit_code,
            joiners: self.wait_for_exit@,
            stack_size: self.kstack_size,
            preempt_pending: self.need_resched,
            preempt_count: self.preempt_disable_count,
            started: self.started,
        }
    }

    fn id(&self) -> (r: TaskId) {
        self.meta.id
    }

    fn name(&self) -> (r: &str) {
        self.meta.name.as_str()
    }

    fn id_name(&self) -> (r: String) {
        format_id_name(self.meta.id.0, self.meta.name.as_str())
    }

    fn state(&self) -> (r: TaskState) {
        self.meta.state
    }

    fn set_state(&mut self, state: TaskState) {
        self.meta.state = state;
    }

    fn is_running(&self) -> (r: bool) {
        match self.meta.state {
            TaskState::Running => true,
            _ => false,
        }
    }

    fn is_ready(&self) -> (r: bool) {
        match self.meta.state {
            TaskState::Ready => true,
            _ => false,
        }
    }

    fn is_blocked(&self) -> (r: bool) {
        match self.meta.state {
            TaskState::Blocked => true,
            _ => false,
        }
    }

    fn get_priority(&self) -> (r: usize) {
        self.meta.priority
    }

    fn set_priority(&mut self, priority: usize) {
        self.meta.priority = priority;
    }

    fn is_init(&self) -> (r: bool) {
        self.meta.is_init
    }

    fn is_idle(&self) -> (r: bool) {
        self.meta.is_idle
    }

    fn in_wait_queue(&self) -> (r: bool) {
        self.meta.in_wait_queue
    }

    fn set_in_wait_queue(&mut self, in_wait_queue: bool) {
        self.meta.in_wait_queue = in_wait_queue;
    }

    fn in_timer_list(&self) -> (r: bool) {
        self.meta.in_timer_list
    }

    fn set_in_timer_list(&mut self, in_timer_list: bool) {
        self.meta.in_timer_list = in_timer_list;
    }

    fn is_async(&self) -> (r: bool) {
        false
    }
}

impl AbsTaskInner for TaskInner {

}

impl TaskInfo for AsyncTaskInner {
    closed spec fn info(&self) -> TaskView {
        TaskView {
            id: self.meta.id.0,
            name: self.meta.name@,
            is_idle: self.meta.is_idle,
            is_init: self.meta.is_init,
            is_async: true,
            state: self.meta.state,
            priority: self.meta.priority,
            in_wait_queue: self.meta.in_wait_queue,
            in_timer_list: self.meta.in_timer_list,
            exit_code: 0,
            joiners: self.wait_for_exit@,
            stack_size: self.kstack_size,
            preempt_pending: false,
            preempt_count: 0,
            started: false,
        }
    }

    fn id(&self) -> (r: TaskId) {
        self.meta.id
    }

    fn name(&self) -> (r: &str) {
        self.meta.name.as_str()
    }

    fn id_name(&self) -> (r: String) {
        format_id_name(self.meta.id.0, self.meta.name.as_str())
    }

    fn state(&self) -> (r: TaskState) {
        self.meta.state
    }

    fn set_state(&mut self, state: TaskState) {
        self.meta.state = state;
    }

    fn is_running(&self) -> (r: bool) {
        match self.meta.state {
            TaskState::Running => true,
            _ => false,
        }
    }

    fn is_ready(&self) -> (r: bool) {
        match self.meta.state {
            TaskState::Ready => true,
            _ => false,
        }
    }

    fn is_blocked(&self) -> (r: bool) {
        match self.meta.state {
            TaskState::Blocked => true,
            _ => false,
        }
    }

    fn get_priority(&self) -> (r: usize) {
        self.meta.priority
    }

    fn set_priority(&mut self, priority: usize) {
        self.meta.priority = priority;
    }

    fn is_init(&self) -> (r: bool) {
        self.meta.is_init
    }

    fn is_idle(&self) -> (r: bool) {
        self.meta.is_idle
    }

    fn in_wait_queue(&self) -> (r: bool) {
        self.meta.in_wait_queue
    }

    fn set_in_wait_queue(&mut self, in_wait_queue: bool) {
        self.meta.in_wait_queue = in_wait_queue;
    }

    fn in_timer_list(&self) -> (r: bool) {
        self.meta.in_timer_list
    }

    fn set_in_timer_list(&mut self, in_timer_list: bool) {
        self.meta.in_timer_list = in_timer_list;
    }

    fn is_async(&self) -> (r: bool) {
        true
    }
}

impl AbsTaskInner for AsyncTaskInner {

}

} // verus!

verus! {

/// The body of a task: a thread with its own stack, or a future.
pub enum TaskBody {
    Sync(TaskInner),
    Async(AsyncTaskInner),
}

/// A schedulable task.
pub struct AxTask {
    pub inner: TaskBody,
}

impl AxTask {
    /// Wraps a thread-backed task.
    pub fn new_sync(inner: TaskInner) -> (r: AxTask)
        ensures
            r.info() == inner.info(),
    {
        AxTask { inner: TaskBody::Sync(inner) }
    }

    /// Marks a thread-backed task to be preempted (or unmarks it); a
    /// future-backed task has no preemption to mark.
    pub fn set_preempt_pending(&mut self, pending: bool)
        ensures
            final(self).info() == (if old(self).info().is_async {
                old(self).info()
            } else {
                TaskView { preempt_pending: pending, ..old(self).info() }
            }),
    {
        match &mut self.inner {
            TaskBody::Sync(t) => t.set_preempt_pending(pending),
            TaskBody::Async(_) => {},
        }
    }

    /// Wraps a future-backed task.
    pub fn new_async(inner: AsyncTaskInner) -> (r: AxTask)
        ensures
            r.info() == inner.info(),
    {
        AxTask { inner: TaskBody::Async(inner) }
    }

    /// The thread-backed body, if the task has one.
    pub fn to_task_inner(&self) -> (r: Option<&TaskInner>)
        ensures
            r.is_some() == !self.info().is_async,
            r.is_some() ==> r.unwrap().info() == self.info(),
    {
        match &self.inner {
            TaskBody::Sync(t) => Some(t),
            TaskBody::Async(_) => None,
        }
    }

    /// Size in bytes of the stack the task was given.
    pub fn kstack_size(&self) -> (r: usize)
        ensures
            r == self.info().stack_size,
    {
        match &self.inner {
            TaskBody::Sync(t) => t.kstack_size(),
            TaskBody::Async(t) => t.kstack_size,
        }
    }

    /// Joins a thread-backed task: its exit code once it has exited, `None`
    /// while it has not (the joiner then waits on its exit queue).
    pub fn join_sync(&self) -> (r: Option<i32>)
        requires
            !self.info().is_async,
        ensures
            r == (if self.info().state == TaskState::Exited {
                Some(self.info().exit_code)
            } else {
                None
            }),
    {
        match &self.inner {
            TaskBody::Sync(t) => t.join(),
            TaskBody::Async(_) => None,
        }
    }

    /// Enters a thread-backed task at a poll; see [`TaskInner::enter`].
    pub fn enter_thread(&mut self) -> (r: bool)
        requires
            !old(self).info().is_async,
        ensures
            r == !old(self).info().started,
            final(self).info() == (TaskView { started: true, ..old(self).info() }),
    {
        match &mut self.inner {
            TaskBody::Sync(t) => t.enter(),
            TaskBody::Async(_) => false,
        }
    }

    /// Records the exit code of a thread-backed task.
    pub fn set_exit_code(&mut self, code: i32)
        requires
            !old(self).info().is_async,
        ensures
            final(self).info() == (TaskView { exit_code: code, ..old(self).info() }),
    {
        match &mut self.inner {
            TaskBody::Sync(t) => t.set_exit_code(code),
            TaskBody::Async(_) => {},
        }
    }

    /// Exchanges the queue of tasks waiting for this one to exit with `q`.
    pub fn swap_joiners(&mut self, q: &mut crate::wait_queue::WaitQueue)
        ensures
            final(q)@ == old(self).info().joiners,
            final(self).info() == (TaskView { joiners: old(q)@, ..old(self).info() }),
    {
        match &mut self.inner {
            TaskBody::Sync(t) => {
                std::mem::swap(&mut t.wait_for_exit, q);
            },
            TaskBody::Async(t) => {
                std::mem::swap(&mut t.wait_for_exit, q);
            },
        }
    }

    /// Adds `waiter` to the tasks waiting for this one to exit.
    pub fn push_joiner(&mut self, waiter: TaskId)
        ensures
            final(self).info() == (TaskView {
                joiners: old(self).info().joiners.push(waiter),
                ..old(self).info()
            }),
    {
        match &mut self.inner {
            TaskBody::Sync(t) => t.wait_for_exit.push_back(waiter),
            TaskBody::Async(t) => t.wait_for_exit.push_back(waiter),
        }
    }
}

impl TaskInfo for AxTask {
    closed spec fn info(&self) -> TaskView {
        match self.inner {
            TaskBody::Sync(t) => t.info(),
            TaskBody::Async(t) => t.info(),
        }
    }

    fn id(&self) -> (r: TaskId) {
        match &self.inner {
            TaskBody::Sync(t) => t.id(),
            TaskBody::Async(t) => t.id(),
        }
    }

    fn name(&self) -> (r: &str) {
        match &self.inner {
            TaskBody::Sync(t) => t.name(),
            TaskBody::Async(t) => t.name(),
        }
    }

    fn id_name(&self) -> (r: String) {
        match &self.inner {
            TaskBody::Sync(t) => t.id_name(),
            TaskBody::Async(t) => t.id_name(),
        }
    }

    fn state(&self) -> (r: TaskState) {
        match &self.inner {
            TaskBody::Sync(t) => t.state(),
            TaskBody::Async(t) => t.state(),
        }
    }

    fn set_state(&mut self, state: TaskState) {
        match &mut self.inner {
            TaskBody::Sync(t) => t.set_state(state),
            TaskBody::Async(t) => t.set_state(state),
        }
    }

    fn is_running(&self) -> (r: bool) {
        match &self.inner {
            TaskBody::Sync(t) => t.is_running(),
            TaskBody::Async(t) => t.is_running(),
        }
    }

    fn is_ready(&self) -> (r: bool) {
        match &self.inner {
            TaskBody::Sync(t) => t.is_ready(),
            TaskBody::Async(t) => t.is_ready(),
        }
    }

    fn is_blocked(&self) -> (r: bool) {
        match &self.inner {
            TaskBody::Sync(t) => t.is_blocked(),
            TaskBody::Async(t) => t.is_blocked(),
        }
    }

    fn get_priority(&self) -> (r: usize) {
        match &self.inner {
            TaskBody::Sync(t) => t.get_priority(),
            TaskBody::Async(t) => t.get_priority(),
        }
    }

    fn set_priority(&mut self, priority: usize) {
        match &mut self.inner {
            TaskBody::Sync(t) => t.set_priority(priority),
            TaskBody::Async(t) => t.set_priority(priority),
        }
    }

    fn is_init(&self) -> (r: bool) {
        match &self.inner {
            TaskBody::Sync(t) => t.is_init(),
            TaskBody::Async(t) => t.is_init(),
        }
    }

    fn is_idle(&self) -> (r: bool) {
        match &self.inner {
            TaskBody::Sync(t) => t.is_idle(),
            TaskBody::Async(t) => t.is_idle(),
        }
    }

    fn in_wait_queue(&self) -> (r: bool) {
        match &self.inner {
            TaskBody::Sync(t) => t.in_wait_queue(),
            TaskBody::Async(t) => t.in_wait_queue(),
        }
    }

    fn set_in_wait_queue(&mut self, in_wait_queue: bool) {
        match &mut self.inner {
            TaskBody::Sync(t) => t.set_in_wait_queue(in_wait_queue),
            TaskBody::Async(t) => t.set_in_wait_queue(in_wait_queue),
        }
    }

    fn in_timer_list(&self) -> (r: bool) {
        match &self.inner {
            TaskBody::Sync(t) => t.in_timer_list(),
            TaskBody::Async(t) => t.in_timer_list(),
        }
    }

    fn set_in_timer_list(&mut self, in_timer_list: bool) {
        match &mut self.inner {
            TaskBody::Sync(t) => t.set_in_timer_list(in_timer_list),
            TaskBody::Async(t) => t.set_in_timer_list(in_timer_list),
        }
    }

    fn is_async(&self) -> (r: bool) {
        match &self.inner {
            TaskBody::Sync(t) => t.is_async(),
            TaskBody::Async(t) => t.is_async(),
        }
    }
}

impl AbsTaskInner for AxTask {

}

/// The task currently running on this CPU; `None` while the executor runs.
pub struct CurrentTask(Option<TaskId>);

impl CurrentTask {
    /// No task is current.
    pub fn new() -> (r: CurrentTask)
        ensures
            r.get() == None::<TaskId>,
    {
        CurrentTask(None)
    }

    pub closed spec fn get(&self) -> Option<TaskId> {
        self.0
    }

    /// Another empty slot, for setting up further CPUs; only an empty slot
    /// may be cloned.
    pub fn clone(&self) -> (r: CurrentTask)
        requires
            self.get() is None,
        ensures
            r.get() == None::<TaskId>,
    {
        CurrentTask::new()
    }

    /// The current task, if any.
    pub fn get_clone(&self) -> (r: Option<TaskId>)
        ensures
            r == self.get(),
    {
        self.0
    }

    /// Whether `other` is the current task.
    pub fn ptr_eq(&self, other: TaskId) -> (r: bool)
        ensures
            r == (self.get() == Some(other)),
    {
        match self.0 {
            None => false,
            Some(t) => t.0 == other.0,
        }
    }

    /// Makes `next` the current task.
    pub fn set_current(&mut self, next: Option<TaskId>)
        ensures
            final(self).get() == next,
    {
        self.0 = next;
    }
}

} // verus!
