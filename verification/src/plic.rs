//! Contexts and the enabling sequence of the platform-level interrupt
//! controller (PLIC) of the RISC-V QEMU `virt` machine.
use vstd::prelude::*;

verus! {

/// The PLIC context of hart `hartid` in privilege mode `mode` (`'M'` or
/// `'S'`): each hart has two contexts, machine mode first.
pub fn get_context(hartid: usize, mode: char) -> (r: usize)
    requires
        mode == 'M' || mode == 'S',
        hartid * 2 + 1 <= usize::MAX,
    ensures
        r == hartid * 2 + (if mode == 'M' {
            0int
        } else {
            1int
        }),
{
    let offset: usize = if mode == 'M' {
        0
    } else {
        1
    };
    hartid * 2 + offset
}

/// A priority or threshold level of the PLIC.
#[derive(Clone, Copy, Debug, PartialEq, Eq, Structural)]
pub enum PlicPriority {
    /// The lowest priority an interrupt can have and still be delivered.
    Lowest,
    /// A threshold that lets every interrupt through.
    Any,
    /// A threshold that masks every interrupt.
    Never,
}

/// One register access to the PLIC.
#[derive(Clone, Copy, Debug, PartialEq, Eq, Structural)]
pub enum PlicOp {
    SetPriority { irq: usize, priority: PlicPriority },
    ClearEnable { context: usize, group: usize },
    SetThreshold { context: usize, priority: PlicPriority },
    Enable { context: usize, irq: usize },
    Claim { context: usize },
    Complete { context: usize, irq: usize },
}

/// The register accesses that route interrupt `irq` to supervisor mode of
/// hart `hart_id`.
pub open spec fn enable_sequence(hart_id: usize, irq: usize) -> Seq<PlicOp> {
    let s = (hart_id * 2 + 1) as usize;
    let m = (hart_id * 2) as usize;
    seq![
        PlicOp::SetPriority { irq, priority: PlicPriority::Lowest },
        PlicOp::ClearEnable { context: s, group: 0 },
        PlicOp::SetThreshold { context: s, priority: PlicPriority::Any },
        PlicOp::SetThreshold { context: m, priority: PlicPriority::Never },
        PlicOp::Enable { context: s, irq },
        PlicOp::Claim { context: s },
        PlicOp::Complete { context: s, irq },
    ]
}

/// Enables external interrupt `scause` on hart `hart_id`: lowest priority,
/// supervisor context open to every priority and machine context closed,
/// then one claim/complete round to clear what is pending. Only the network
/// interrupt `net_irq` is supported.
pub fn enable(hart_id: usize, scause: usize, net_irq: usize) -> (r: Vec<PlicOp>)
    requires
        scause == net_irq,
        hart_id * 2 + 1 <= usize::MAX,
    ensures
        r@ == enable_sequence(hart_id, scause),
{
    let context = get_context(hart_id, 'S');
    let m_context = get_context(hart_id, 'M');
    let mut ops: Vec<PlicOp> = Vec::new();
    ops.push(PlicOp::SetPriority { irq: scause, priority: PlicPriority::Lowest });
    ops.push(PlicOp::ClearEnable { context, group: 0 });
    ops.push(PlicOp::SetThreshold { context, priority: PlicPriority::Any });
    ops.push(PlicOp::SetThreshold { context: m_context, priority: PlicPriority::Never });
    ops.push(PlicOp::Enable { context, irq: scause });
    ops.push(PlicOp::Claim { context });
    ops.push(PlicOp::Complete { context, irq: scause });
    assert(ops@ =~= enable_sequence(hart_id, scause));
    ops
}

/// The context whose claim register `get_irq` reads on hart `hart_id`: the
/// supervisor context.
pub fn get_irq_context(hart_id: usize) -> (r: usize)
    requires
        hart_id * 2 + 1 <= usize::MAX,
    ensures
        r == hart_id * 2 + 1,
{
    get_context(hart_id, 'S')
}

} // verus!

verus! {

/// Different harts or modes never share a PLIC context.
pub proof fn law_context_injective(h1: int, m1: int, h2: int, m2: int)
    requires
        0 <= m1 <= 1,
        0 <= m2 <= 1,
        h1 * 2 + m1 == h2 * 2 + m2,
    ensures
        h1 == h2,
        m1 == m2,
{
}

/// Enabling routes the interrupt to the supervisor context of the hart
/// (`get_context(hart_id, 'S')`, that is `2 * hart_id + 1`) and closes the
/// machine context of the same hart (`get_context(hart_id, 'M')`, that is
/// `2 * hart_id`): every context opened, enabled or claimed is the
/// supervisor one, the only context set to `Never` is the machine one, and
/// the two differ.
pub proof fn law_enable_contexts(hart_id: usize, irq: usize)
    requires
        hart_id * 2 + 1 <= usize::MAX,
    ensures
        forall|i: int|
            0 <= i < enable_sequence(hart_id, irq).len() ==> match #[trigger] enable_sequence(
                hart_id,
                irq,
            )[i] {
                PlicOp::SetThreshold { context, priority } => if priority == PlicPriority::Never {
                    context == 2 * hart_id
                } else {
                    context == 2 * hart_id + 1
                },
                PlicOp::ClearEnable { context, .. } => context == 2 * hart_id + 1,
                PlicOp::Enable { context, irq: j } => context == 2 * hart_id + 1 && j == irq,
                PlicOp::Claim { context } => context == 2 * hart_id + 1,
                PlicOp::Complete { context, irq: j } => context == 2 * hart_id + 1 && j == irq,
                PlicOp::SetPriority { irq: j, priority } => j == irq && priority
                    == PlicPriority::Lowest,
            },
        exists|i: int|
            0 <= i < enable_sequence(hart_id, irq).len() && enable_sequence(hart_id, irq)[i]
                == (PlicOp::SetThreshold { context: (2 * hart_id) as usize, priority: PlicPriority::Never }),
        2 * hart_id != 2 * hart_id + 1,
{
    let s = enable_sequence(hart_id, irq);
    assert(s[3] == (PlicOp::SetThreshold { context: (2 * hart_id) as usize, priority: PlicPriority::Never }));
}

} // verus!
