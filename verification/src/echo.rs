//! The computations of the echo server: the sum of square roots over the
//! little-endian numbers of a frame, and line-wise byte reversal.
use vstd::prelude::*;
use vstd::bytes::spec_u64_from_le_bytes;
use crate::parallel::{all_u32, isqrt, sqrt, sum_isqrt};

verus! {

/// The little-endian number in the eight bytes of `buf` at `pos`.
fn read_le_u64(buf: &[u8], pos: usize) -> (r: u64)
    requires
        pos + 8 <= buf@.len(),
    ensures
        r == spec_u64_from_le_bytes(buf@.subrange(pos as int, pos + 8)),
{
    let len = buf.len();
    assert(pos + 8 <= len);
    vstd::bytes::u64_from_le_bytes(vstd::slice::slice_subrange(buf, pos, pos + 8))
}

/// The `count` little-endian numbers stored in `buf` from `from` on.
pub open spec fn frame_numbers(buf: Seq<u8>, from: int, count: nat) -> Seq<u64> {
    Seq::new(count, |j: int| spec_u64_from_le_bytes(buf.subrange(from + 8 * j, from + 8 * j + 8)))
}

/// Adds to `result` the square roots of the whole numbers received between
/// `compute_pos` and `read_pos`; returns the new sum and the position of the
/// first byte not yet used.
pub fn frame_sqrt_sum(buf: &[u8], compute_pos: usize, read_pos: usize, result: u64) -> (r: (
    u64,
    usize,
))
    requires
        compute_pos <= read_pos <= buf@.len(),
        all_u32(frame_numbers(buf@, compute_pos as int, ((read_pos - compute_pos) / 8) as nat)),
        result + sum_isqrt(
            frame_numbers(buf@, compute_pos as int, ((read_pos - compute_pos) / 8) as nat),
        ) <= u64::MAX,
    ensures
        ({
            let count = ((read_pos - compute_pos) / 8) as nat;
            &&& r.1 == compute_pos + 8 * count
            &&& r.0 == result + sum_isqrt(frame_numbers(buf@, compute_pos as int, count))
        }),
{
    let ghost count = ((read_pos - compute_pos) / 8) as nat;
    let ghost all = frame_numbers(buf@, compute_pos as int, count);
    let mut pos = compute_pos;
    let mut acc = result;
    let mut k: usize = 0;
    proof {
        assert(all.subrange(0, 0) =~= Seq::<u64>::empty());
    }
    while read_pos - pos >= 8
        invariant
            compute_pos <= pos <= read_pos <= buf@.len(),
            pos == compute_pos + 8 * k,
            k <= count,
            count == (read_pos - compute_pos) / 8,
            all == frame_numbers(buf@, compute_pos as int, count),
            all_u32(all),
            result + sum_isqrt(all) <= u64::MAX,
            acc == result + sum_isqrt(all.subrange(0, k as int)),
        decreases read_pos - pos,
    {
        assert(k < count) by (nonlinear_arith)
            requires
                pos == compute_pos + 8 * k,
                read_pos - pos >= 8,
                count == (read_pos - compute_pos) / 8,
                compute_pos <= read_pos;
        let x = read_le_u64(buf, pos);
        assert(x == all[k as int]);
        let s = sqrt(&x);
        proof {
            assert(all.subrange(0, k + 1).drop_last() =~= all.subrange(0, k as int));
            crate::parallel::lemma_sum_isqrt_append(
                all.subrange(0, k + 1),
                all.subrange(k + 1, all.len() as int),
            );
            assert(all.subrange(0, k + 1) + all.subrange(k + 1, all.len() as int) =~= all);
        }
        acc = acc + s;
        pos = pos + 8;
        k = k + 1;
    }
    assert(k == count) by (nonlinear_arith)
        requires
            pos == compute_pos + 8 * k,
            read_pos - pos < 8,
            count == (read_pos - compute_pos) / 8,
            compute_pos <= pos <= read_pos,
            k <= count;
    assert(all.subrange(0, k as int) =~= all);
    (acc, pos)
}

/// Whether the whole numbers received between `compute_pos` and `read_pos`
/// are all below 2^32 and their roots, added to `result`, fit in 64 bits:
/// exactly the inputs on which the frame sum can be taken.
pub open spec fn frame_sum_ok(buf: Seq<u8>, compute_pos: int, read_pos: int, result: u64) -> bool {
    let nums = frame_numbers(buf, compute_pos, ((read_pos - compute_pos) / 8) as nat);
    all_u32(nums) && result + sum_isqrt(nums) <= u64::MAX
}

/// Tests [`frame_sum_ok`].
pub fn frame_sum_fits(buf: &[u8], compute_pos: usize, read_pos: usize, result: u64) -> (r: bool)
    requires
        compute_pos <= read_pos <= buf@.len(),
    ensures
        r == frame_sum_ok(buf@, compute_pos as int, read_pos as int, result),
{
    let ghost count = ((read_pos - compute_pos) / 8) as nat;
    let ghost all = frame_numbers(buf@, compute_pos as int, count);
    let mut pos = compute_pos;
    let mut acc = result;
    let mut k: usize = 0;
    proof {
        assert(all.subrange(0, 0) =~= Seq::<u64>::empty());
    }
    while read_pos - pos >= 8
        invariant
            compute_pos <= pos <= read_pos <= buf@.len(),
            pos == compute_pos + 8 * k,
            k <= count,
            count == (read_pos - compute_pos) / 8,
            all == frame_numbers(buf@, compute_pos as int, count),
            all_u32(all.subrange(0, k as int)),
            acc == result + sum_isqrt(all.subrange(0, k as int)),
        decreases read_pos - pos,
    {
        assert(k < count) by (nonlinear_arith)
            requires
                pos == compute_pos + 8 * k,
                read_pos - pos >= 8,
                count == (read_pos - compute_pos) / 8,
                compute_pos <= read_pos;
        let x = read_le_u64(buf, pos);
        assert(x == all[k as int]);
        if x > 0xffff_ffff {
            assert(!all_u32(all)) by {
                assert(all[k as int] > u32::MAX);
            }
            return false;
        }
        let s = sqrt(&x);
        proof {
            assert(all.subrange(0, k + 1).drop_last() =~= all.subrange(0, k as int));
            crate::parallel::lemma_sum_isqrt_prefix(all, k + 1);
        }
        match acc.checked_add(s) {
            Some(a) => {
                acc = a;
            },
            None => {
                return false;
            },
        }
        proof {
            assert forall|j: int| 0 <= j < k + 1 implies #[trigger] all.subrange(0, k + 1)[j]
                <= u32::MAX by {
                if j < k {
                    assert(all.subrange(0, k + 1)[j] == all.subrange(0, k as int)[j]);
                }
            }
        }
        pos = pos + 8;
        k = k + 1;
    }
    assert(k == count) by (nonlinear_arith)
        requires
            pos == compute_pos + 8 * k,
            read_pos - pos < 8,
            count == (read_pos - compute_pos) / 8,
            compute_pos <= pos <= read_pos,
            k <= count;
    assert(all.subrange(0, k as int) =~= all);
    true
}

/// The size of one frame of the echo server.
pub const FRAME_SIZE: usize = 2048;

/// Where the echo server is within the current frame: the sum so far, how
/// many bytes have arrived, and how many of them have been summed.
#[derive(Clone, Copy, Debug, PartialEq, Eq, Structural)]
pub struct FrameState {
    pub result: u64,
    pub read_pos: usize,
    pub compute_pos: usize,
}

/// What the echo server does after a read.
#[derive(Clone, Copy, Debug, PartialEq, Eq, Structural)]
pub enum FrameAction {
    /// Nothing arrived: yield, then read again.
    Yield,
    /// The frame is not complete: read again.
    Read,
    /// The frame is complete: send this sum back and start a new frame.
    Reply(u64),
}

impl FrameState {
    /// The state at the start of a frame.
    pub fn new() -> (r: FrameState)
        ensures
            r == (FrameState { result: 0, read_pos: 0, compute_pos: 0 }),
    {
        FrameState { result: 0, read_pos: 0, compute_pos: 0 }
    }
}

/// One step of the echo server: `n` more bytes arrived in `buf` after
/// `read_pos`. With none, the server yields. Otherwise the whole numbers now
/// received are summed; once the frame is full the sum is sent back and a new
/// frame begins, else the server reads on.
pub fn frame_step(buf: &[u8], st: &mut FrameState, n: usize) -> (r: FrameAction)
    requires
        buf@.len() == FRAME_SIZE,
        old(st).compute_pos <= old(st).read_pos < FRAME_SIZE,
        n <= FRAME_SIZE - old(st).read_pos,
        frame_sum_ok(buf@, old(st).compute_pos as int, old(st).read_pos + n, old(st).result),
    ensures
        n == 0 ==> r == FrameAction::Yield && *final(st) == *old(st),
        n > 0 ==> ({
            let read = old(st).read_pos + n;
            let count = ((read - old(st).compute_pos) / 8) as nat;
            let sum = old(st).result + sum_isqrt(
                frame_numbers(buf@, old(st).compute_pos as int, count),
            );
            if read == FRAME_SIZE {
                &&& r == FrameAction::Reply(sum as u64)
                &&& *final(st) == (FrameState { result: 0, read_pos: 0, compute_pos: 0 })
            } else {
                &&& r == FrameAction::Read
                &&& *final(st) == (FrameState {
                    result: sum as u64,
                    read_pos: read as usize,
                    compute_pos: (old(st).compute_pos + 8 * count) as usize,
                })
            }
        }),
{
    if n == 0 {
        return FrameAction::Yield;
    }
    let read_pos = st.read_pos + n;
    let (sum, pos) = frame_sqrt_sum(buf, st.compute_pos, read_pos, st.result);
    if read_pos >= FRAME_SIZE {
        *st = FrameState::new();
        FrameAction::Reply(sum)
    } else {
        *st = FrameState { result: sum, read_pos, compute_pos: pos };
        FrameAction::Read
    }
}

/// The index of the first newline in `s`, if any.
#[verifier::opaque]
pub open spec fn first_newline(s: Seq<u8>) -> Option<int> {
    if exists|i: int| 0 <= i < s.len() && s[i] == 10u8 {
        Some(choose|i: int| 0 <= i < s.len() && s[i] == 10u8 && forall|j: int| 0 <= j < i ==> s[j] != 10u8)
    } else {
        None
    }
}

/// `s` with every line reversed in place; the newlines stay where they are.
#[verifier::opaque]
pub open spec fn reverse_lines(s: Seq<u8>) -> Seq<u8>
    decreases s.len(),
{
    match first_newline(s) {
        None => s.reverse(),
        Some(k) => if 0 <= k < s.len() {
            s.subrange(0, k).reverse() + seq![10u8] + reverse_lines(s.subrange(k + 1, s.len() as int))
        } else {
            s
        },
    }
}

/// The first newline of `s` from `start` on is at `end` (or there is none
/// when `end` is the length).
proof fn lemma_first_newline_at(s: Seq<u8>, start: int, end: int)
    requires
        0 <= start <= end <= s.len(),
        forall|j: int| start <= j < end ==> s[j] != 10u8,
        end < s.len() ==> s[end] == 10u8,
    ensures
        end == s.len() ==> first_newline(s.subrange(start, s.len() as int)) is None,
        end < s.len() ==> first_newline(s.subrange(start, s.len() as int)) == Some(end - start),
{
    reveal(first_newline);
    let rest = s.subrange(start, s.len() as int);
    if end == s.len() {
        assert(!exists|i: int| 0 <= i < rest.len() && rest[i] == 10u8) by {
            assert forall|i: int| 0 <= i < rest.len() implies rest[i] != 10u8 by {
                assert(rest[i] == s[start + i]);
            }
        }
    } else {
        let k = end - start;
        assert(rest[k] == 10u8);
        let c = choose|i: int| 0 <= i < rest.len() && rest[i] == 10u8 && forall|j: int| 0 <= j < i ==> rest[j] != 10u8;
        assert(0 <= c < rest.len() && rest[c] == 10u8 && forall|j: int| 0 <= j < c ==> rest[j] != 10u8) by {
            assert(forall|j: int| 0 <= j < k ==> rest[j] != 10u8) by {
                assert forall|j: int| 0 <= j < k implies rest[j] != 10u8 by {
                    assert(rest[j] == s[start + j]);
                }
            }
        }
        if c < k {
            assert(rest[c] == s[start + c]);
        } else if c > k {
        }
    }
}

/// The position of the first newline in `buf` from `start` on, or the length.
fn find_newline(buf: &[u8], start: usize) -> (end: usize)
    requires
        start <= buf@.len(),
    ensures
        start <= end <= buf@.len(),
        forall|j: int| start <= j < end ==> buf@[j] != 10u8,
        end < buf@.len() ==> buf@[end as int] == 10u8,
{
    let n = buf.len();
    let mut end = start;
    while end < n && buf[end] != 10u8
        invariant
            n == buf@.len(),
            start <= end <= n,
            forall|j: int| start <= j < end ==> buf@[j] != 10u8,
        decreases n - end,
    {
        end = end + 1;
    }
    end
}

/// Appends `buf[start..end]` reversed to `out`.
fn push_reversed(out: &mut Vec<u8>, buf: &[u8], start: usize, end: usize)
    requires
        start <= end <= buf@.len(),
    ensures
        final(out)@ == old(out)@ + buf@.subrange(start as int, end as int).reverse(),
{
    let ghost out0 = out@;
    let mut i = end;
    assert(out@ =~= out0 + buf@.subrange(end as int, end as int).reverse());
    while i > start
        invariant
            start <= i <= end <= buf@.len(),
            out@ == out0 + buf@.subrange(i as int, end as int).reverse(),
        decreases i,
    {
        i = i - 1;
        out.push(buf[i]);
        assert(buf@.subrange(i as int, end as int).reverse() =~= buf@.subrange(
            i + 1,
            end as int,
        ).reverse().push(buf@[i as int]));
    }
}

/// One line of `reverse_lines`: with the first newline of `buf[start..]` at
/// `end`, the rest is that line reversed, the newline, and the lines after.
proof fn lemma_reverse_lines_step(s: Seq<u8>, start: int, end: int)
    requires
        0 <= start <= end <= s.len(),
        forall|j: int| start <= j < end ==> s[j] != 10u8,
        end < s.len() ==> s[end] == 10u8,
    ensures
        end == s.len() ==> reverse_lines(s.subrange(start, s.len() as int)) == s.subrange(
            start,
            end,
        ).reverse(),
        end < s.len() ==> reverse_lines(s.subrange(start, s.len() as int)) == s.subrange(
            start,
            end,
        ).reverse() + seq![10u8] + reverse_lines(s.subrange(end + 1, s.len() as int)),
{
    reveal(reverse_lines);
    let rest = s.subrange(start, s.len() as int);
    lemma_first_newline_at(s, start, end);
    assert(s.subrange(start, end) =~= rest.subrange(0, end - start));
    if end < s.len() {
        assert(rest.subrange(end - start + 1, rest.len() as int) =~= s.subrange(
            end + 1,
            s.len() as int,
        ));
    } else {
        assert(rest =~= s.subrange(start, end));
    }
}

/// Reverses each line of `buf`.
pub fn reverse(buf: &[u8]) -> (r: Vec<u8>)
    ensures
        r@ == reverse_lines(buf@),
{
    let n = buf.len();
    let mut out: Vec<u8> = Vec::new();
    let mut start: usize = 0;
    proof {
        assert(buf@.subrange(0, n as int) =~= buf@);
        assert(out@ + reverse_lines(buf@.subrange(0, n as int)) =~= reverse_lines(buf@));
    }
    loop
        invariant
            n == buf@.len(),
            start <= n,
            reverse_lines(buf@) == out@ + reverse_lines(buf@.subrange(start as int, n as int)),
        decreases n - start,
    {
        let ghost out0 = out@;
        let end = find_newline(buf, start);
        push_reversed(&mut out, buf, start, end);
        proof {
            lemma_reverse_lines_step(buf@, start as int, end as int);
        }
        if end == n {
            return out;
        }
        out.push(10u8);
        proof {
            assert(out@ =~= out0 + buf@.subrange(start as int, end as int).reverse() + seq![10u8]);
        }
        start = end + 1;
    }
}

} // verus!

verus! {

/// `reverse_lines` of a newline-free line followed by a newline and more.
proof fn lemma_reverse_lines_cons(a: Seq<u8>, b: Seq<u8>)
    requires
        forall|j: int| 0 <= j < a.len() ==> a[j] != 10u8,
    ensures
        reverse_lines(a + seq![10u8] + b) == a.reverse() + seq![10u8] + reverse_lines(b),
        reverse_lines(a) == a.reverse(),
{
    let s = a + seq![10u8] + b;
    lemma_reverse_lines_step(s, 0, a.len() as int);
    assert(s.subrange(0, s.len() as int) =~= s);
    assert(s.subrange(0, a.len() as int) =~= a);
    assert(s.subrange(a.len() as int + 1, s.len() as int) =~= b);
    lemma_reverse_lines_step(a, 0, a.len() as int);
    assert(a.subrange(0, a.len() as int) =~= a);
}

/// Reversing the lines twice gives the bytes back.
pub proof fn law_reverse_involution(s: Seq<u8>)
    ensures
        reverse_lines(reverse_lines(s)) == s,
    decreases s.len(),
{
    let n = s.len() as int;
    // the first newline of `s`, or its length
    let end = if exists|i: int| 0 <= i < n && s[i] == 10u8 {
        choose|i: int| 0 <= i < n && s[i] == 10u8 && forall|j: int| 0 <= j < i ==> s[j] != 10u8
    } else {
        n
    };
    if exists|i: int| 0 <= i < n && s[i] == 10u8 {
        let w = choose|i: int| 0 <= i < n && s[i] == 10u8;
        lemma_least_newline(s, w);
    }
    let a = s.subrange(0, end);
    assert forall|j: int| 0 <= j < a.len() implies a[j] != 10u8 by {
        assert(a[j] == s[j]);
    }
    let ra = a.reverse();
    assert forall|j: int| 0 <= j < ra.len() implies ra[j] != 10u8 by {
        assert(ra[j] == a[a.len() - 1 - j]);
    }
    assert(ra.reverse() =~= a);
    if end == n {
        assert(a =~= s);
        lemma_reverse_lines_cons(a, Seq::empty());
        lemma_reverse_lines_cons(ra, Seq::empty());
    } else {
        let b = s.subrange(end + 1, n);
        assert(s =~= a + seq![10u8] + b);
        lemma_reverse_lines_cons(a, b);
        law_reverse_involution(b);
        lemma_reverse_lines_cons(ra, reverse_lines(b));
    }
}

/// Some newline at `w` or before means there is a first one, with none
/// before it.
proof fn lemma_least_newline(s: Seq<u8>, w: int)
    requires
        0 <= w < s.len(),
        s[w] == 10u8,
    ensures
        exists|i: int| 0 <= i < s.len() && s[i] == 10u8 && forall|j: int| 0 <= j < i ==> s[j] != 10u8,
    decreases w,
{
    if exists|j: int| 0 <= j < w && s[j] == 10u8 {
        let v = choose|j: int| 0 <= j < w && s[j] == 10u8;
        lemma_least_newline(s, v);
    } else {
        assert(forall|j: int| 0 <= j < w ==> s[j] != 10u8);
    }
}

} // verus!
