//! Integer square roots and the work partition used by the parallel
//! sum benchmark.
use vstd::prelude::*;
use rand::rngs::SmallRng;
use rand::{RngCore, SeedableRng};

verus! {

/// `r` is the integer square root of `n`.
pub open spec fn is_isqrt(n: int, r: int) -> bool {
    0 <= r && r * r <= n && n < (r + 1) * (r + 1)
}

/// One Newton step from above keeps the iterate an upper bound of the
/// square root and strictly decreases it while it is still too large.
proof fn lemma_newton_step(n: int, x: int)
    requires
        0 <= n,
        1 <= x,
        x * x > n,
        n < (x + 1) * (x + 1),
    ensures
        (x + n / x) / 2 < x,
        n < ((x + n / x) / 2 + 1) * ((x + n / x) / 2 + 1),
{
    let q = n / x;
    let y = (x + q) / 2;
    vstd::arithmetic::div_mod::lemma_fundamental_div_mod(n, x);
    vstd::arithmetic::div_mod::lemma_mod_bound(n, x);
    assert(n == x * q + n % x);
    assert(q < x) by (nonlinear_arith)
        requires x * x > n, n == x * q + n % x, n % x >= 0, x >= 1;
    assert(n < (q + 1) * x) by (nonlinear_arith)
        requires n == x * q + n % x, n % x < x;
    assert(2 * (y + 1) >= x + q + 1);
    assert((x + q + 1) * (x + q + 1) >= 4 * x * (q + 1)) by (nonlinear_arith);
    assert(4 * ((y + 1) * (y + 1)) >= (x + q + 1) * (x + q + 1)) by (nonlinear_arith)
        requires 2 * (y + 1) >= x + q + 1, x + q + 1 >= 0;
    assert(n < (y + 1) * (y + 1)) by (nonlinear_arith)
        requires
            4 * ((y + 1) * (y + 1)) >= (x + q + 1) * (x + q + 1),
            (x + q + 1) * (x + q + 1) >= 4 * x * (q + 1),
            n < (q + 1) * x,
    ;
}

/// Integer square root by Newton's iteration started at `n`.
///
/// Returns the largest `r` with `r * r <= n`.
pub fn sqrt(n: &u64) -> (r: u64)
    requires
        *n <= u32::MAX,
    ensures
        is_isqrt(*n as int, r as int),
        r == isqrt(*n as nat),
{
    let mut x: u64 = *n;
    assert((*n as int) < (x + 1) * (x + 1)) by (nonlinear_arith)
        requires x == *n;
    loop
        invariant
            x <= *n,
            *n <= u32::MAX,
            (*n as int) < (x + 1) * (x + 1),
        decreases x,
    {
        assert(x * x <= u64::MAX) by (nonlinear_arith)
            requires x <= u32::MAX;
        if x * x <= *n {
            assert((x + 1) * (x + 1) <= u64::MAX) by (nonlinear_arith)
                requires x * x <= u32::MAX, x <= u32::MAX;
            if (x + 1) * (x + 1) > *n {
                proof {
                    lemma_isqrt_is(*n as nat, x as nat);
                }
                return x;
            }
        }
        proof {
            lemma_newton_step(*n as int, x as int);
        }
        x = (x + *n / x) / 2;
    }
}

} // verus!

verus! {

/// The integer square root of `n`.
pub open spec fn isqrt(n: nat) -> nat {
    choose|r: nat| is_isqrt(n as int, r as int)
}

/// At most one number is the integer square root of `n`.
pub proof fn lemma_isqrt_unique(n: int, r1: int, r2: int)
    requires
        is_isqrt(n, r1),
        is_isqrt(n, r2),
    ensures
        r1 == r2,
{
    if r1 < r2 {
        assert((r1 + 1) * (r1 + 1) <= r2 * r2) by (nonlinear_arith)
            requires 0 <= r1 + 1 <= r2;
    } else if r2 < r1 {
        assert((r2 + 1) * (r2 + 1) <= r1 * r1) by (nonlinear_arith)
            requires 0 <= r2 + 1 <= r1;
    }
}

/// A root of `n` is `isqrt(n)`.
pub proof fn lemma_isqrt_is(n: nat, r: nat)
    requires
        is_isqrt(n as int, r as int),
    ensures
        isqrt(n) == r,
{
    let q = isqrt(n);
    assert(is_isqrt(n as int, q as int));
    lemma_isqrt_unique(n as int, q as int, r as int);
}

/// Sum of the integer square roots of the elements of `s`.
pub open spec fn sum_isqrt(s: Seq<u64>) -> nat
    decreases s.len(),
{
    if s.len() == 0 {
        0
    } else {
        sum_isqrt(s.drop_last()) + isqrt(s.last() as nat)
    }
}

/// The sum over a concatenation is the sum of the sums.
pub proof fn lemma_sum_isqrt_append(a: Seq<u64>, b: Seq<u64>)
    ensures
        sum_isqrt(a + b) == sum_isqrt(a) + sum_isqrt(b),
    decreases b.len(),
{
    if b.len() == 0 {
        assert(a + b =~= a);
    } else {
        assert((a + b).drop_last() =~= a + b.drop_last());
        lemma_sum_isqrt_append(a, b.drop_last());
    }
}

/// A prefix sums to at most the whole.
pub proof fn lemma_sum_isqrt_prefix(s: Seq<u64>, i: int)
    requires
        0 <= i <= s.len(),
    ensures
        sum_isqrt(s.subrange(0, i)) <= sum_isqrt(s),
{
    lemma_sum_isqrt_append(s.subrange(0, i), s.subrange(i, s.len() as int));
    assert(s.subrange(0, i) + s.subrange(i, s.len() as int) =~= s);
}

/// Whether every element of `s` is below 2^32.
pub open spec fn all_u32(s: Seq<u64>) -> bool {
    forall|k: int| 0 <= k < s.len() ==> #[trigger] s[k] <= u32::MAX
}

/// The small fast generator of the `rand` crate.
#[verifier::external_type_specification]
#[verifier::external_body]
pub struct ExSmallRng(SmallRng);

/// `SmallRng::seed_from_u64`: a generator seeded with `seed`. Its output is
/// not promised to be the same on every platform, so nothing is stated of it.
#[verifier::external_body]
fn seed_small_rng(seed: u64) -> (r: SmallRng) {
    SmallRng::seed_from_u64(seed)
}

/// `RngCore::next_u32`: the generator's next 32-bit value, whatever it is.
#[verifier::external_body]
fn next_u32(rng: &mut SmallRng) -> (r: u32) {
    rng.next_u32()
}

/// The benchmark's input: `num_data` pseudo-random 32-bit numbers drawn from
/// a generator seeded with `seed`, each widened to 64 bits.
pub fn random_data(seed: u64, num_data: usize) -> (r: Vec<u64>)
    ensures
        r.len() == num_data,
        all_u32(r@),
{
    let mut rng = seed_small_rng(seed);
    let mut v: Vec<u64> = Vec::with_capacity(num_data);
    let mut i: usize = 0;
    while i < num_data
        invariant
            i <= num_data,
            v.len() == i,
            all_u32(v@),
        decreases num_data - i,
    {
        let x = next_u32(&mut rng);
        v.push(x as u64);
        i = i + 1;
    }
    v
}

/// Sum of the integer square roots of `data`.
pub fn sum_sqrt(data: &[u64]) -> (r: u64)
    requires
        all_u32(data@),
        sum_isqrt(data@) <= u64::MAX,
    ensures
        r == sum_isqrt(data@),
{
    let n = data.len();
    let mut acc: u64 = 0;
    let mut i: usize = 0;
    proof {
        assert(data@.subrange(0, 0) =~= Seq::<u64>::empty());
    }
    while i < n
        invariant
            n == data@.len(),
            i <= n,
            all_u32(data@),
            sum_isqrt(data@) <= u64::MAX,
            acc == sum_isqrt(data@.subrange(0, i as int)),
        decreases n - i,
    {
        let x = data[i];
        let r = sqrt(&x);
        proof {
            assert(data@.subrange(0, i + 1).drop_last() =~= data@.subrange(0, i as int));
            lemma_sum_isqrt_prefix(data@, i + 1);
        }
        acc = acc + r;
        i = i + 1;
    }
    proof {
        assert(data@.subrange(0, n as int) =~= data@);
    }
    acc
}

/// The slice of the data that worker `i` of `num_tasks` sums: chunks of
/// `num_data / num_tasks` elements, the last one cut at `num_data`.
pub open spec fn partition_spec(i: int, num_data: int, num_tasks: int) -> (int, int) {
    let chunk = num_data / num_tasks;
    let left = i * chunk;
    let right = if left + chunk < num_data {
        left + chunk
    } else {
        num_data
    };
    (left, right)
}

/// The range `[left, right)` of the data that worker `i` sums.
pub fn partition(i: usize, num_data: usize, num_tasks: usize) -> (r: (usize, usize))
    requires
        num_tasks > 0,
        (i + 1) * (num_data / num_tasks) <= usize::MAX,
    ensures
        r.0 == partition_spec(i as int, num_data as int, num_tasks as int).0,
        r.1 == partition_spec(i as int, num_data as int, num_tasks as int).1,
{
    let chunk = num_data / num_tasks;
    assert(i * chunk + chunk == (i + 1) * chunk) by (nonlinear_arith);
    assert(i * chunk <= (i + 1) * chunk) by (nonlinear_arith);
    let left = i * chunk;
    let end = left + chunk;
    let right = if end < num_data {
        end
    } else {
        num_data
    };
    (left, right)
}

/// The sum of the first `k` workers' partial sums.
pub open spec fn partial_sums(s: Seq<u64>, k: nat, num_tasks: int) -> nat
    decreases k,
{
    if k == 0 {
        0
    } else {
        let (l, r) = partition_spec(k - 1, s.len() as int, num_tasks);
        partial_sums(s, (k - 1) as nat, num_tasks) + sum_isqrt(s.subrange(l, r))
    }
}

/// With the data split evenly, the workers' partial sums add up to the sum
/// over all the data.
#[verifier::spinoff_prover]
pub proof fn lemma_partial_sums_cover(s: Seq<u64>, num_tasks: int)
    requires
        num_tasks > 0,
        (s.len() as int) % num_tasks == 0,
    ensures
        partial_sums(s, num_tasks as nat, num_tasks) == sum_isqrt(s),
{
    let chunk = (s.len() as int) / num_tasks;
    assert(chunk * num_tasks == s.len()) by (nonlinear_arith)
        requires chunk == (s.len() as int) / num_tasks, (s.len() as int) % num_tasks == 0, num_tasks > 0;
    assert((num_tasks as nat) * chunk == s.len()) by (nonlinear_arith)
        requires chunk * num_tasks == s.len(), num_tasks > 0;
    lemma_partial_sums_prefix(s, num_tasks as nat, num_tasks);
    assert(s.subrange(0, s.len() as int) =~= s);
}

/// The first `k` workers together sum the first `k` chunks.
#[verifier::spinoff_prover]
proof fn lemma_partial_sums_prefix(s: Seq<u64>, k: nat, num_tasks: int)
    requires
        num_tasks > 0,
        (s.len() as int) % num_tasks == 0,
        k <= num_tasks,
    ensures
        partial_sums(s, k, num_tasks) == sum_isqrt(s.subrange(0, k * ((s.len() as int) / num_tasks))),
    decreases k,
{
    let chunk = (s.len() as int) / num_tasks;
    assert(chunk * num_tasks == s.len()) by (nonlinear_arith)
        requires chunk == (s.len() as int) / num_tasks, (s.len() as int) % num_tasks == 0, num_tasks > 0;
    assert(chunk >= 0) by (nonlinear_arith)
        requires chunk == (s.len() as int) / num_tasks, num_tasks > 0;
    if k == 0 {
        assert(s.subrange(0, 0) =~= Seq::<u64>::empty());
    } else {
        lemma_partial_sums_prefix(s, (k - 1) as nat, num_tasks);
        let l = (k - 1) * chunk;
        assert(l + chunk == k * chunk) by (nonlinear_arith)
            requires l == (k - 1) * chunk;
        assert(k * chunk <= s.len()) by (nonlinear_arith)
            requires k <= num_tasks, chunk >= 0, chunk * num_tasks == s.len();
        assert(0 <= l) by (nonlinear_arith)
            requires l == (k - 1) * chunk, k >= 1, chunk >= 0;
        let right = if l + chunk < s.len() { l + chunk } else { s.len() as int };
        assert(right == k * chunk);
        assert(partition_spec(k - 1, s.len() as int, num_tasks) == (l, k * chunk));
        assert(partial_sums(s, (k - 1) as nat, num_tasks) == sum_isqrt(s.subrange(0, l)));
        assert(partial_sums(s, k, num_tasks) == partial_sums(s, (k - 1) as nat, num_tasks)
            + sum_isqrt(s.subrange(l, k * chunk)));
        lemma_sum_isqrt_append(s.subrange(0, l), s.subrange(l, k * chunk));
        assert(s.subrange(0, l) + s.subrange(l, k * chunk) =~= s.subrange(0, k * chunk));
    }
}

} // verus!
