//! The register map that the controller's MMIO self-test walks: each
//! register's address, the value it reads after reset, and the value the
//! test then writes to it.
use vstd::prelude::*;
use crate::executor::HW_ADDR_BASE;

verus! {

/// A register read as all ones after reset.
pub const ALL_ONES: u64 = 0xffff_ffff_ffff_ffff;

/// One register of the self-test.
#[derive(Clone, Copy, Debug, PartialEq, Eq, Structural)]
pub struct RegisterCheck {
    /// Its address.
    pub addr: u64,
    /// What it reads after reset.
    pub reset: u64,
    /// What the test writes to it.
    pub write: u64,
}

/// The registers of the self-test for process window `k` (and queue `k`),
/// in the order it reads and then writes them: the global registers, the
/// process's priority scheduler, its IPC handler, and the external
/// interrupt handler.
pub open spec fn mmio_test_spec(k: u64) -> Seq<RegisterCheck> {
    let b = HW_ADDR_BASE as int;
    let p = b + k * 0x1000;
    let c = |addr: int, reset: u64, write: u64| RegisterCheck { addr: addr as u64, reset, write };
    seq![
        c(b + 0x00_0000, 0, 0x0000_0000_0000_0000),
        c(b + 0x00_0800, 0, 0x1111_1111_1111_1111),
        c(b + 0x00_0900, ALL_ONES, 0x2222_2222_2222_2222),
        c(b + 0x00_1000, 0, 0x3333_3333_3333_3333),
        c(b + 0x00_1800, 0, 0x4444_4444_4444_4444),
        c(b + 0x00_1900, ALL_ONES, 0x5555_5555_5555_5555),
        c(b + 0xff_c000, 0, 0x6666_6666_6666_6666),
        c(b + 0xff_c800, 0, 0x7777_7777_7777_7777),
        c(b + 0xff_c900, ALL_ONES, 0x8888_8888_8888_8888),
        c(b + 0xff_d000, 0, 0x9999_9999_9999_9999),
        c(b + 0xff_f128, ALL_ONES, 0xaaaa_aaaa_aaaa_aaaa),
        c(p + 0x00, 0, 0xbbbb_bbbb_bbbb_bbbb),
        c(p + 0x20, 0, 0xcccc_cccc_cccc_cccc),
        c(p + 0x28, 0, 0xdddd_dddd_dddd_dddd),
        c(p + 0x30 + k * 8, 0, 0xeeee_eeee_eeee_eeee),
        c(p + 0x0800, 0, 0xffff_ffff_ffff_ffff),
        c(p + 0x0808, 0, 0x0000_0000_0000_0000),
        c(p + 0x0810, 0, 0x1111_1111_1111_1111),
        c(p + 0x0818 + k * 8, 0, 0x2222_2222_2222_2222),
        c(p + 0x0898, ALL_ONES, 0x3333_3333_3333_3333),
        c(b + 0xff_d000, 0, 0x4444_4444_4444_4444),
        c(b + 0xff_d080 + k * 8, 0, 0x5555_5555_5555_5555),
    ]
}

/// The registers of the self-test for window `k` (at most 15).
pub fn mmio_test_registers(k: u64) -> (r: Vec<RegisterCheck>)
    requires
        k <= 15,
    ensures
        r@ == mmio_test_spec(k),
{
    let b = HW_ADDR_BASE;
    let p = b + k * 0x1000;
    let mut r: Vec<RegisterCheck> = Vec::new();
    r.push(RegisterCheck { addr: b + 0x00_0000, reset: 0, write: 0x0000_0000_0000_0000 });
    r.push(RegisterCheck { addr: b + 0x00_0800, reset: 0, write: 0x1111_1111_1111_1111 });
    r.push(RegisterCheck { addr: b + 0x00_0900, reset: ALL_ONES, write: 0x2222_2222_2222_2222 });
    r.push(RegisterCheck { addr: b + 0x00_1000, reset: 0, write: 0x3333_3333_3333_3333 });
    r.push(RegisterCheck { addr: b + 0x00_1800, reset: 0, write: 0x4444_4444_4444_4444 });
    r.push(RegisterCheck { addr: b + 0x00_1900, reset: ALL_ONES, write: 0x5555_5555_5555_5555 });
    r.push(RegisterCheck { addr: b + 0xff_c000, reset: 0, write: 0x6666_6666_6666_6666 });
    r.push(RegisterCheck { addr: b + 0xff_c800, reset: 0, write: 0x7777_7777_7777_7777 });
    r.push(RegisterCheck { addr: b + 0xff_c900, reset: ALL_ONES, write: 0x8888_8888_8888_8888 });
    r.push(RegisterCheck { addr: b + 0xff_d000, reset: 0, write: 0x9999_9999_9999_9999 });
    r.push(RegisterCheck { addr: b + 0xff_f128, reset: ALL_ONES, write: 0xaaaa_aaaa_aaaa_aaaa });
    r.push(RegisterCheck { addr: p + 0x00, reset: 0, write: 0xbbbb_bbbb_bbbb_bbbb });
    r.push(RegisterCheck { addr: p + 0x20, reset: 0, write: 0xcccc_cccc_cccc_cccc });
    r.push(RegisterCheck { addr: p + 0x28, reset: 0, write: 0xdddd_dddd_dddd_dddd });
    r.push(RegisterCheck { addr: p + 0x30 + k * 8, reset: 0, write: 0xeeee_eeee_eeee_eeee });
    r.push(RegisterCheck { addr: p + 0x0800, reset: 0, write: 0xffff_ffff_ffff_ffff });
    r.push(RegisterCheck { addr: p + 0x0808, reset: 0, write: 0x0000_0000_0000_0000 });
    r.push(RegisterCheck { addr: p + 0x0810, reset: 0, write: 0x1111_1111_1111_1111 });
    r.push(RegisterCheck { addr: p + 0x0818 + k * 8, reset: 0, write: 0x2222_2222_2222_2222 });
    r.push(RegisterCheck { addr: p + 0x0898, reset: ALL_ONES, write: 0x3333_3333_3333_3333 });
    r.push(RegisterCheck { addr: b + 0xff_d000, reset: 0, write: 0x4444_4444_4444_4444 });
    r.push(RegisterCheck { addr: b + 0xff_d080 + k * 8, reset: 0, write: 0x5555_5555_5555_5555 });
    assert(r@ =~= mmio_test_spec(k));
    r
}

/// The first position at which `a` and `b` differ, if any.
pub open spec fn first_difference(a: Seq<u64>, b: Seq<u64>) -> Option<int> {
    if exists|i: int| 0 <= i < a.len() && a[i] != b[i] {
        Some(choose|i: int| 0 <= i < a.len() && a[i] != b[i] && forall|j: int| 0 <= j < i ==> a[j] == b[j])
    } else {
        None
    }
}

/// The first register whose value read (`reads`) is not the one expected
/// (`expected`), in test order; the test fails there.
pub fn first_mismatch(reads: &[u64], expected: &[u64]) -> (r: Option<usize>)
    requires
        reads@.len() == expected@.len(),
    ensures
        match r {
            Some(i) => first_difference(reads@, expected@) == Some(i as int),
            None => first_difference(reads@, expected@) is None,
        },
{
    let n = reads.len();
    let mut i: usize = 0;
    while i < n
        invariant
            n == reads@.len(),
            n == expected@.len(),
            i <= n,
            forall|j: int| 0 <= j < i ==> reads@[j] == expected@[j],
        decreases n - i,
    {
        if reads[i] != expected[i] {
            proof {
                let w = choose|w: int|
                    0 <= w < reads@.len() && reads@[w] != expected@[w] && forall|j: int|
                        0 <= j < w ==> reads@[j] == expected@[j];
                assert(0 <= i < reads@.len() && reads@[i as int] != expected@[i as int] && forall|
                    j: int,
                | 0 <= j < i ==> reads@[j] == expected@[j]);
                assert(w == i as int) by {
                    if w < i {
                        assert(reads@[w] == expected@[w]);
                    }
                    if w > i {
                        assert(reads@[i as int] == expected@[i as int]);
                    }
                }
            }
            return Some(i);
        }
        i = i + 1;
    }
    None
}

} // verus!
