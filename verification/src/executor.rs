//! A minimal executor that talks to the task-scheduling interrupt
//! controller through its memory-mapped registers.
use vstd::prelude::*;

verus! {

/// Base address of the controller's register space (addresses are 64-bit).
pub const HW_ADDR_BASE: u64 = 0xffff_ffc0_0f00_0000;

/// Size of one process's register window.
pub const PROCESS_WINDOW: u64 = 0x1000;

/// Offset of the dequeue register in a process window.
pub const DEQUEUE_OFFSET: u64 = 0x28;

/// Offset of the enqueue register of priority 0 in a process window; the
/// register of priority `p` follows at `8 * p` bytes.
pub const ENQUEUE_OFFSET: u64 = 0x30;

/// An executor serving the process `process_id` of the controller.
pub struct Executor {
    process_id: u32,
}

/// The address of the enqueue register for `priority` of process `pid`.
pub open spec fn enqueue_addr_spec(pid: u32, priority: u64) -> int {
    HW_ADDR_BASE + pid * PROCESS_WINDOW + ENQUEUE_OFFSET + priority * 8
}

/// The address of the dequeue register of process `pid`.
pub open spec fn dequeue_addr_spec(pid: u32) -> int {
    HW_ADDR_BASE + pid * PROCESS_WINDOW + DEQUEUE_OFFSET
}

impl Executor {
    /// An executor for process `process_id`.
    pub fn new(process_id: u32) -> (r: Executor)
        ensures
            r.pid() == process_id,
    {
        Executor { process_id }
    }

    pub closed spec fn pid(&self) -> u32 {
        self.process_id
    }

    /// The process this executor serves.
    pub fn process_id(&self) -> (r: u32)
        ensures
            r == self.pid(),
    {
        self.process_id
    }

    /// Where a task of priority `priority` is written to be queued.
    pub fn enqueue_addr(&self, priority: u64) -> (r: u64)
        requires
            enqueue_addr_spec(self.pid(), priority) <= u64::MAX,
        ensures
            r == enqueue_addr_spec(self.pid(), priority),
    {
        HW_ADDR_BASE + (self.process_id as u64) * PROCESS_WINDOW + ENQUEUE_OFFSET + priority * 8
    }

    /// Where the next ready task is read from.
    pub fn dequeue_addr(&self) -> (r: u64)
        requires
            dequeue_addr_spec(self.pid()) <= u64::MAX,
        ensures
            r == dequeue_addr_spec(self.pid()),
    {
        HW_ADDR_BASE + (self.process_id as u64) * PROCESS_WINDOW + DEQUEUE_OFFSET
    }

    /// What the dequeue register read means: 0 is an empty queue, anything
    /// else the pointer of the fetched task.
    pub fn decode_fetched(task_ptr: usize) -> (r: Option<usize>)
        ensures
            r == (if task_ptr == 0 {
                None
            } else {
                Some(task_ptr)
            }),
    {
        if task_ptr != 0 {
            Some(task_ptr)
        } else {
            None
        }
    }
}

} // verus!

verus! {

/// Within a process window, the dequeue register and the enqueue registers
/// of different priorities are all at different addresses.
pub proof fn law_registers_distinct(pid: u32, p1: u64, p2: u64)
    ensures
        p1 != p2 ==> enqueue_addr_spec(pid, p1) != enqueue_addr_spec(pid, p2),
        enqueue_addr_spec(pid, p1) != dequeue_addr_spec(pid),
{
}

/// Each process has its own 4 KiB register window at
/// `0xffff_ffc0_0f00_0000 + pid * 0x1000`: its dequeue register and the
/// enqueue registers of its priorities (up to 505, the last that fits)
/// lie inside that window, so two different processes never share a queue
/// register.
pub proof fn law_process_windows(pid1: u32, pid2: u32, p1: u64, p2: u64)
    requires
        p1 <= 505,
        p2 <= 505,
    ensures
        0xffff_ffc0_0f00_0000 + pid1 * 0x1000 <= enqueue_addr_spec(pid1, p1) < 0xffff_ffc0_0f00_0000
            + (pid1 + 1) * 0x1000,
        0xffff_ffc0_0f00_0000 + pid1 * 0x1000 <= dequeue_addr_spec(pid1) < 0xffff_ffc0_0f00_0000 + (
        pid1 + 1) * 0x1000,
        enqueue_addr_spec(pid1, p1) - (0xffff_ffc0_0f00_0000 + pid1 * 0x1000) == 0x30 + 8 * p1,
        dequeue_addr_spec(pid1) - (0xffff_ffc0_0f00_0000 + pid1 * 0x1000) == 0x28,
        pid1 != pid2 ==> {
            &&& enqueue_addr_spec(pid1, p1) != enqueue_addr_spec(pid2, p2)
            &&& dequeue_addr_spec(pid1) != dequeue_addr_spec(pid2)
            &&& enqueue_addr_spec(pid1, p1) != dequeue_addr_spec(pid2)
        },
{
}

} // verus!
