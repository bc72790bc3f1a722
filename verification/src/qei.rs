//! Wraparound disambiguation for a 16-bit quadrature-encoder register.
//!
//! The hardware register is only 16 bits wide and wraps on overflow and
//! underflow. Provided consecutive raw samples are taken close enough
//! together that the true displacement stays strictly below half the
//! register range (2^15 counts), the direction of motion can be recovered
//! and accumulated into a signed 64-bit running position.

use vstd::prelude::*;

verus! {

/// Half the 16-bit counter range. An observed change of exactly this many
/// counts cannot be told apart from a wrap in the opposite direction.
pub const THRESHOLD: u16 = 32768;

/// The raw difference `cur - prev` reduced modulo 2^16, as the hardware
/// register itself would compute it; always in `[0, 65536)`.
pub open spec fn wrapped_diff(prev: u16, cur: u16) -> int {
    (cur - prev) % 65536
}

/// Whether the observed change sits exactly on the disambiguation
/// threshold, so that the direction of motion cannot be recovered.
pub open spec fn ambiguous(prev: u16, cur: u16) -> bool {
    wrapped_diff(prev, cur) == 32768
}

/// The signed circular displacement from `prev` to `cur`: the unique
/// value in `[-32768, 32767]` congruent to `cur - prev` modulo 2^16.
/// At exactly `-32768` the observation is ambiguous and is rejected by
/// `sample` rather than interpreted.
pub open spec fn displacement(prev: u16, cur: u16) -> int {
    if wrapped_diff(prev, cur) < 32768 {
        wrapped_diff(prev, cur)
    } else {
        wrapped_diff(prev, cur) - 65536
    }
}

/// The error returned when the internal counter cannot be updated.
#[derive(Debug, PartialEq, Eq, Structural)]
pub enum SamplingError {
    /// The samples were taken too far apart: consecutive raw samples must
    /// lie within a circular distance strictly below 2^15 of one another.
    SampleTooFar,
}

/// Extends a 16-bit quadrature-encoder register by tracking overflows and
/// underflows into a signed 64-bit cumulative position.
#[derive(Debug)]
pub struct QeiManager {
    /// Cumulative signed position accumulated over all accepted samples.
    pub counter: i64,
    /// The raw register value observed by the last accepted sample.
    pub previous_count: u16,
}

impl QeiManager {
    /// The accumulated position, reduced modulo 2^16, mirrors the raw
    /// register value it was built from. Established at construction and
    /// preserved by every sample; only `reset` abandons it.
    pub open spec fn in_step(self) -> bool {
        self.counter as int % 65536 == self.previous_count as int
    }

    /// The accumulator can absorb the displacement of the next raw sample
    /// without leaving the `i64` range.
    pub open spec fn fits(self, cur: u16) -> bool {
        i64::MIN <= self.counter + displacement(self.previous_count, cur) <= i64::MAX
    }

    /// The state after an accepted sample of `cur`: the signed circular
    /// displacement is added to the counter and the raw value is recorded.
    pub open spec fn sample_next(self, cur: u16) -> QeiManager {
        QeiManager {
            counter: (self.counter + displacement(self.previous_count, cur)) as i64,
            previous_count: cur,
        }
    }

    /// Create a manager with both the position and the recorded raw
    /// register value at zero.
    pub fn new() -> (q: QeiManager)
        ensures
            q.counter == 0,
            q.previous_count == 0,
            q.in_step(),
    {
        QeiManager { counter: 0, previous_count: 0 }
    }

    /// Take a new raw sample from the register and update the internal
    /// counter.
    pub fn sample(&mut self, count: u16) -> (r: Result<(), SamplingError>)
        requires
            !ambiguous(old(self).previous_count, count) ==> old(self).fits(count),
        ensures
            ambiguous(old(self).previous_count, count) ==> {
                &&& r == Result::<(), SamplingError>::Err(SamplingError::SampleTooFar)
                &&& *final(self) == *old(self)
            },
            !ambiguous(old(self).previous_count, count) ==> {
                &&& r == Result::<(), SamplingError>::Ok(())
                &&& *final(self) == old(self).sample_next(count)
            },
            old(self).in_step() ==> final(self).in_step(),
    {
        self.update(count)
    }

    /// Take a new raw sample, unwrapping the ambiguity error; the caller
    /// must know the sample is within the disambiguation threshold.
    pub fn sample_unwrap(&mut self, count: u16)
        requires
            !ambiguous(old(self).previous_count, count),
            old(self).fits(count),
        ensures
            *final(self) == old(self).sample_next(count),
            old(self).in_step() ==> final(self).in_step(),
    {
        self.update(count).unwrap();
    }

    /// As `sample_unwrap`; retained alongside it for callers inside the
    /// crate's own tests.
    pub fn update_unwrap(&mut self, current_count: u16)
        requires
            !ambiguous(old(self).previous_count, current_count),
            old(self).fits(current_count),
        ensures
            *final(self) == old(self).sample_next(current_count),
            old(self).in_step() ==> final(self).in_step(),
    {
        self.update(current_count).unwrap();
    }

    /// Disambiguate one raw sample against the previously recorded one and
    /// accumulate the signed circular displacement.
    pub fn update(&mut self, current_count: u16) -> (r: Result<(), SamplingError>)
        requires
            !ambiguous(old(self).previous_count, current_count) ==> old(self).fits(current_count),
        ensures
            ambiguous(old(self).previous_count, current_count) ==> {
                &&& r == Result::<(), SamplingError>::Err(SamplingError::SampleTooFar)
                &&& *final(self) == *old(self)
            },
            !ambiguous(old(self).previous_count, current_count) ==> {
                &&& r == Result::<(), SamplingError>::Ok(())
                &&& *final(self) == old(self).sample_next(current_count)
            },
            old(self).in_step() ==> final(self).in_step(),
    {
        if current_count == self.previous_count {
            return Ok(());
        } else if self.previous_count < current_count {
            if current_count - self.previous_count < THRESHOLD {
                // Forward motion, no wrap.
                self.counter = self.counter + (current_count - self.previous_count) as i64;
            } else if current_count - self.previous_count > THRESHOLD {
                // Backward motion through an underflow of the register.
                self.counter = self.counter
                    - (u16::MAX - current_count + self.previous_count + 1) as i64;
            } else {
                // Exactly half the range: direction unknowable.
                return Err(SamplingError::SampleTooFar);
            }
        } else {
            if self.previous_count - current_count < THRESHOLD {
                // Backward motion, no wrap.
                self.counter = self.counter - (self.previous_count - current_count) as i64;
            } else if self.previous_count - current_count > THRESHOLD {
                // Forward motion through an overflow of the register.
                self.counter = self.counter
                    + (u16::MAX - self.previous_count + current_count + 1) as i64;
            } else {
                // Exactly half the range: direction unknowable.
                return Err(SamplingError::SampleTooFar);
            }
        }
        self.previous_count = current_count;
        proof {
            if old(self).in_step() {
                lemma_sample_preserves_in_step(*old(self), current_count);
            }
        }
        Ok(())
    }

    /// The internal counter value.
    pub fn count(&self) -> (c: i64)
        ensures
            c == self.counter,
    {
        self.counter
    }

    /// Zero the cumulative position. The recorded raw register value is
    /// kept, so the next sample measures from the same reference and no
    /// spurious jump is produced.
    pub fn reset(&mut self)
        ensures
            final(self).counter == 0,
            final(self).previous_count == old(self).previous_count,
    {
        self.counter = 0;
    }
}

/// Accepting a sample keeps the accumulated position congruent, modulo
/// 2^16, to the raw register value it last absorbed: `in_step` holds of
/// every state reachable from construction through `sample` alone.
pub proof fn lemma_sample_preserves_in_step(s: QeiManager, cur: u16)
    requires
        s.in_step(),
        s.fits(cur),
    ensures
        s.sample_next(cur).in_step(),
{
    let m: int = 65536;
    let c: int = s.counter as int;
    let p: int = s.previous_count as int;
    let wd: int = wrapped_diff(s.previous_count, cur);
    let d: int = displacement(s.previous_count, cur);
    vstd::arithmetic::div_mod::lemma_small_mod(cur as nat, m as nat);
    vstd::arithmetic::div_mod::lemma_mod_sub_multiples_vanish(wd, m);
    vstd::arithmetic::div_mod::lemma_mod_twice(cur - p, m);
    assert(d % m == wd);
    vstd::arithmetic::div_mod::lemma_add_mod_noop(c, d, m);
    vstd::arithmetic::div_mod::lemma_add_mod_noop_right(p, cur - p, m);
    assert((c + d) % m == cur as int);
}

/// A sample repeated with an identical raw value is a no-op: the second
/// observation shows no displacement, so it neither moves the position
/// nor changes the recorded register value, and it cannot be ambiguous.
pub proof fn lemma_resample_noop(s: QeiManager, x: u16)
    ensures
        !ambiguous(s.sample_next(x).previous_count, x),
        s.sample_next(x).sample_next(x) == s.sample_next(x),
{
    let t = s.sample_next(x);
    assert(wrapped_diff(t.previous_count, x) == 0);
    assert(t.sample_next(x).counter == t.counter);
}

} // verus!

