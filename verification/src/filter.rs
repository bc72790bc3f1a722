//! Fixed-capacity moving-average smoothing over the rate stream.
//!
//! The filter holds the most recent samples in insertion order, up to a
//! capacity chosen at construction. While the window is still filling, the
//! average is taken over the samples actually fed — never over the full
//! capacity, which would bias early readings toward zero. Once full, each
//! new sample evicts the oldest one.
//!
//! Samples are bounded in magnitude so that the running sum over a full
//! window provably stays inside `i64`.

use vstd::arithmetic::div_mod::lemma_fundamental_div_mod;
use vstd::arithmetic::div_mod::lemma_div_multiples_vanish;
use vstd::arithmetic::mul::lemma_mul_inequality;
use vstd::prelude::*;

verus! {

/// Largest magnitude a fed sample may have (2^45). With at most
/// `MAX_CAPACITY` samples held, the running sum stays within 2^61.
pub const MAX_SAMPLE_MAGNITUDE: i64 = 0x2000_0000_0000;

/// Largest window capacity the filter accepts (2^16).
pub const MAX_CAPACITY: usize = 65536;

/// The sum of a sequence of samples, as an unbounded integer.
pub open spec fn seq_sum(s: Seq<i64>) -> int
    decreases s.len(),
{
    if s.len() == 0 {
        0
    } else {
        seq_sum(s.drop_last()) + s.last()
    }
}

/// Integer division rounding toward zero, as the machine's signed
/// division does; `b` must be positive.
pub open spec fn div_toward_zero(a: int, b: int) -> int {
    if a >= 0 {
        a / b
    } else {
        -((-a) / b)
    }
}

/// Every sample of `s` within `[-bound, bound]`.
pub open spec fn all_within(s: Seq<i64>, bound: int) -> bool {
    forall|i: int| 0 <= i < s.len() ==> -bound <= #[trigger] s[i] <= bound
}

/// Appending a sample adds it to the sum.
pub proof fn lemma_seq_sum_push(s: Seq<i64>, v: i64)
    ensures
        seq_sum(s.push(v)) == seq_sum(s) + v,
{
    assert(s.push(v).drop_last() =~= s);
}

/// The sum splits off the first sample: the rest of the sequence carries
/// the remainder of the sum.
pub proof fn lemma_seq_sum_skip_first(s: Seq<i64>)
    requires
        s.len() > 0,
    ensures
        seq_sum(s) == s[0] + seq_sum(s.subrange(1, s.len() as int)),
    decreases s.len(),
{
    if s.len() == 1 {
        assert(s.subrange(1, 1).len() == 0);
        assert(seq_sum(s.subrange(1, s.len() as int)) == 0);
        assert(s.drop_last().len() == 0);
        assert(seq_sum(s.drop_last()) == 0);
        assert(seq_sum(s) == seq_sum(s.drop_last()) + s.last());
        assert(s.last() == s[0]);
    } else {
        let dl = s.drop_last();
        lemma_seq_sum_skip_first(dl);
        assert(seq_sum(s) == seq_sum(dl) + s.last());
        assert(dl[0] == s[0]);
        let tail = s.subrange(1, s.len() as int);
        assert(tail.drop_last() =~= dl.subrange(1, dl.len() as int));
        assert(tail.last() == s.last());
        assert(seq_sum(tail) == seq_sum(tail.drop_last()) + tail.last());
    }
}

/// A sum of samples bounded in magnitude by `bound` is itself bounded in
/// magnitude by `len * bound`.
pub proof fn lemma_seq_sum_bounds(s: Seq<i64>, bound: int)
    requires
        bound >= 0,
        all_within(s, bound),
    ensures
        -(s.len() * bound) <= seq_sum(s) <= s.len() * bound,
    decreases s.len(),
{
    if s.len() == 0 {
    } else {
        let dl = s.drop_last();
        assert(all_within(dl, bound));
        lemma_seq_sum_bounds(dl, bound);
        assert(s.len() * bound == dl.len() * bound + bound) by (nonlinear_arith)
            requires s.len() == dl.len() + 1;
    }
}

/// A sequence of one constant sums to `len` times that constant.
pub proof fn lemma_seq_sum_constant(s: Seq<i64>, v: i64)
    requires
        forall|i: int| 0 <= i < s.len() ==> #[trigger] s[i] == v,
    ensures
        seq_sum(s) == s.len() * v,
    decreases s.len(),
{
    if s.len() == 0 {
    } else {
        let dl = s.drop_last();
        lemma_seq_sum_constant(dl, v);
        assert(s.len() * v == dl.len() * v + v) by (nonlinear_arith)
            requires s.len() == dl.len() + 1;
    }
}

/// A window holding only the constant `v` averages to exactly `v`,
/// whatever its length: the running sum is `len * v` and the division by
/// `len` is exact.
pub proof fn lemma_constant_average(s: Seq<i64>, v: i64)
    requires
        s.len() > 0,
        forall|i: int| 0 <= i < s.len() ==> #[trigger] s[i] == v,
    ensures
        div_toward_zero(seq_sum(s), s.len() as int) == v,
{
    let n: int = s.len() as int;
    lemma_seq_sum_constant(s, v);
    if v >= 0 {
        assert(n * v >= 0) by (nonlinear_arith)
            requires n > 0, v >= 0;
        lemma_div_multiples_vanish(v as int, n);
        assert(n * v == v * n) by (nonlinear_arith);
    } else {
        assert(n * v < 0) by (nonlinear_arith)
            requires n > 0, v < 0;
        assert(-(n * v) == n * (-v)) by (nonlinear_arith);
        lemma_div_multiples_vanish(-v as int, n);
    }
}

/// Dividing a nonnegative integer by a positive one can neither grow it
/// nor make it negative.
proof fn lemma_div_le_self(s: int, n: int)
    requires
        0 <= s,
        1 <= n,
    ensures
        0 <= s / n <= s,
{
    vstd::arithmetic::div_mod::lemma_div_pos_is_pos(s, n);
    vstd::arithmetic::div_mod::lemma_mod_division_less_than_divisor(s, n);
    lemma_fundamental_div_mod(s, n);
    assert(s / n <= s) by (nonlinear_arith)
        requires
            1 <= n,
            0 <= s / n,
            0 <= s % n,
            s == n * (s / n) + s % n,
    ;
}

/// Fixed-capacity moving-average filter with ring-buffer eviction order:
/// once full, each new sample replaces the oldest one held.
pub struct MovingAverageFilter {
    /// Samples currently held, oldest first.
    pub window: Vec<i64>,
    /// Sum of all samples currently held.
    pub running_sum: i64,
    /// Number of samples held once the window is full.
    pub capacity: usize,
}

impl MovingAverageFilter {
    /// The samples currently held, oldest first.
    pub open spec fn samples(self) -> Seq<i64> {
        self.window@
    }

    /// Well-formedness: the window respects the capacity, every held
    /// sample is bounded, and the running sum is exactly the sum of the
    /// held samples.
    pub open spec fn wf(self) -> bool {
        &&& 1 <= self.capacity <= MAX_CAPACITY
        &&& self.window@.len() <= self.capacity
        &&& all_within(self.window@, MAX_SAMPLE_MAGNITUDE as int)
        &&& self.running_sum == seq_sum(self.window@)
    }

    /// The window after feeding `v`: appended while filling, otherwise
    /// the oldest sample is evicted to make room.
    pub open spec fn fed(self, v: i64) -> Seq<i64> {
        if self.window@.len() < self.capacity {
            self.window@.push(v)
        } else {
            self.window@.subrange(1, self.window@.len() as int).push(v)
        }
    }

    /// Create an empty filter of the given capacity.
    pub fn new(capacity: usize) -> (f: MovingAverageFilter)
        requires
            1 <= capacity <= MAX_CAPACITY,
        ensures
            f.wf(),
            f.capacity == capacity,
            f.samples() =~= Seq::<i64>::empty(),
    {
        MovingAverageFilter { window: Vec::new(), running_sum: 0, capacity }
    }

    /// Feed one sample and return the average over the samples then held.
    /// While the window is filling the average is over the count actually
    /// fed; once full, the oldest sample is evicted first.
    pub fn feed(&mut self, value: i64) -> (avg: i64)
        requires
            old(self).wf(),
            -MAX_SAMPLE_MAGNITUDE <= value <= MAX_SAMPLE_MAGNITUDE,
        ensures
            final(self).wf(),
            final(self).capacity == old(self).capacity,
            final(self).samples() == old(self).fed(value),
            final(self).samples().len() > 0,
            avg == div_toward_zero(seq_sum(final(self).samples()), final(self).samples().len() as int),
    {
        proof {
            lemma_seq_sum_bounds(self.window@, MAX_SAMPLE_MAGNITUDE as int);
            lemma_mul_inequality(
                self.window@.len() as int,
                MAX_CAPACITY as int,
                MAX_SAMPLE_MAGNITUDE as int,
            );
        }
        if self.window.len() < self.capacity {
            self.running_sum = self.running_sum + value;
            self.window.push(value);
            proof {
                lemma_seq_sum_push(old(self).window@, value);
            }
        } else {
            proof {
                lemma_seq_sum_skip_first(self.window@);
            }
            let evicted: i64 = self.window.remove(0);
            proof {
                assert(old(self).window@.remove(0) =~= old(self).window@.subrange(
                    1,
                    old(self).window@.len() as int,
                ));
                lemma_seq_sum_bounds(self.window@, MAX_SAMPLE_MAGNITUDE as int);
                lemma_mul_inequality(
                    self.window@.len() as int,
                    MAX_CAPACITY as int,
                    MAX_SAMPLE_MAGNITUDE as int,
                );
            }
            self.running_sum = self.running_sum - evicted + value;
            self.window.push(value);
            proof {
                lemma_seq_sum_push(old(self).window@.subrange(
                    1,
                    old(self).window@.len() as int,
                ), value);
            }
        }
        self.get()
    }

    /// The average over the samples currently held, without feeding;
    /// rounding is toward zero, as machine division rounds. At least one
    /// sample must have been fed.
    pub fn get(&self) -> (avg: i64)
        requires
            self.wf(),
            self.samples().len() > 0,
        ensures
            avg == div_toward_zero(seq_sum(self.samples()), self.samples().len() as int),
    {
        proof {
            lemma_seq_sum_bounds(self.window@, MAX_SAMPLE_MAGNITUDE as int);
            lemma_mul_inequality(
                self.window@.len() as int,
                MAX_CAPACITY as int,
                MAX_SAMPLE_MAGNITUDE as int,
            );
        }
        let n: usize = self.window.len();
        if self.running_sum >= 0 {
            let q: u64 = (self.running_sum as u64) / (n as u64);
            proof {
                lemma_div_le_self(self.running_sum as int, n as int);
            }
            q as i64
        } else {
            let mag: i64 = -self.running_sum;
            let q: u64 = (mag as u64) / (n as u64);
            proof {
                lemma_div_le_self(mag as int, n as int);
            }
            -(q as i64)
        }
    }
}

} // verus!
