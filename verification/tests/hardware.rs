use ats_task::mmio_map::{first_mismatch, mmio_test_registers, ALL_ONES};
use ats_task::executor::{Executor, HW_ADDR_BASE};
use ats_task::plic::{enable, get_context, get_irq_context, PlicOp, PlicPriority};
use ats_task::scheduler::{ATScheduler, AtsTask};
use ats_task::ats::{Ats, ReadyPush};
use ats_task::task::TaskId;

#[test]
fn plic_contexts() {
    assert_eq!(get_context(0, 'M'), 0);
    assert_eq!(get_context(0, 'S'), 1);
    assert_eq!(get_context(3, 'M'), 6);
    assert_eq!(get_context(3, 'S'), 7);
    assert_eq!(get_irq_context(2), 5);
}

#[test]
fn plic_enable_sequence() {
    let ops = enable(1, 8, 8);
    assert_eq!(
        ops,
        vec![
            PlicOp::SetPriority { irq: 8, priority: PlicPriority::Lowest },
            PlicOp::ClearEnable { context: 3, group: 0 },
            PlicOp::SetThreshold { context: 3, priority: PlicPriority::Any },
            PlicOp::SetThreshold { context: 2, priority: PlicPriority::Never },
            PlicOp::Enable { context: 3, irq: 8 },
            PlicOp::Claim { context: 3 },
            PlicOp::Complete { context: 3, irq: 8 },
        ]
    );
}

#[test]
fn executor_register_addresses() {
    let e = Executor::new(0);
    assert_eq!(e.dequeue_addr(), 0xffff_ffc0_0f00_0028);
    assert_eq!(e.enqueue_addr(0), 0xffff_ffc0_0f00_0030);
    assert_eq!(e.enqueue_addr(3), 0xffff_ffc0_0f00_0048);
    let e2 = Executor::new(2);
    assert_eq!(e2.dequeue_addr(), HW_ADDR_BASE + 0x2000 + 0x28);
    assert_eq!(e2.enqueue_addr(1), HW_ADDR_BASE + 0x2000 + 0x38);
}

#[test]
fn executor_decodes_fetch() {
    assert_eq!(Executor::decode_fetched(0), None);
    assert_eq!(Executor::decode_fetched(0x8020_0000), Some(0x8020_0000));
}

#[test]
fn ats_scheduler_is_fifo_at_priority_zero() {
    let mut s: ATScheduler<u32> = ATScheduler::new(0xffff_ffc0_0f00_0000);
    assert_eq!(ATScheduler::<u32>::scheduler_name(), "ats");
    s.init();
    assert_eq!(s.add_task(TaskId(4)), ReadyPush { task: TaskId(4), priority: 0 });
    assert_eq!(s.put_prev_task(TaskId(5), true), ReadyPush { task: TaskId(5), priority: 0 });
    assert!(!s.task_tick(TaskId(5)));
    assert!(!s.set_priority(TaskId(5), 3));
}

#[test]
fn ats_task_wraps_inner() {
    let t = AtsTask::new(42u64);
    assert_eq!(*t.inner(), 42);
    assert_eq!(*t, 42);
    let u = AtsTask::new(5u32);
    assert_eq!(*u, 5u32);
}

#[test]
fn ats_executor_stack_is_default_size() {
    let a = Ats::new(0, 1);
    assert_eq!(a.cpu_id, 1);
    assert_eq!(a.executor_stack_size(), 0x40000);
}

#[test]
fn mmio_register_map() {
    let regs = mmio_test_registers(15);
    assert_eq!(regs.len(), 22);
    assert_eq!(regs[0].addr, 0xffff_ffc0_0f00_0000);
    assert_eq!(regs[2].reset, ALL_ONES);
    assert_eq!(regs[10].addr, 0xffff_ffc0_0fff_f128);
    assert_eq!(regs[14].addr, 0xffff_ffc0_0f00_f000 + 0x30 + 15 * 8);
    assert_eq!(regs[18].addr, 0xffff_ffc0_0f00_f000 + 0x0818 + 15 * 8);
    assert_eq!(regs[19].reset, ALL_ONES);
    assert_eq!(regs[21].addr, 0xffff_ffc0_0fff_d080 + 15 * 8);
    assert_eq!(regs[21].write, 0x5555_5555_5555_5555);
    let expected: Vec<u64> = regs.iter().map(|r| r.reset).collect();
    assert_eq!(first_mismatch(&expected, &expected), None);
    let mut reads = expected.clone();
    reads[19] = 0;
    reads[20] = 1;
    assert_eq!(first_mismatch(&reads, &expected), Some(19));
}
