//! Per-tick orchestration: raw register sample in, cumulative position
//! and smoothed rate out.
//!
//! An external periodic driver reads the hardware register once per fixed
//! period and hands the raw value to `tick`, which runs the full
//! measurement sequence: wraparound disambiguation, instantaneous rate,
//! moving-average smoothing. An ambiguous sample is absorbed without
//! panicking — the position is simply left where it was, the stale
//! reference value is kept, and disambiguation is retried on the next
//! tick — so the real-time cadence is never missed.

use crate::filter::MovingAverageFilter;
use crate::filter::div_toward_zero;
use crate::filter::seq_sum;
use crate::qei::QeiManager;
use crate::qei::ambiguous;
use crate::rate::MAX_POSITION_MAGNITUDE;
use crate::rate::MAX_SCALE;
use crate::rate::RateEstimator;
use vstd::prelude::*;

verus! {

/// The counter state after one tick's raw sample: advanced by the signed
/// circular displacement when the sample is unambiguous, left unchanged
/// when it sits exactly on the disambiguation threshold.
pub open spec fn next_qei(q: QeiManager, raw: u16) -> QeiManager {
    if ambiguous(q.previous_count, raw) {
        q
    } else {
        q.sample_next(raw)
    }
}

/// The three measurement components, owned together by the single
/// tick-handling context and stepped in a fixed order once per period.
pub struct Tachometer {
    /// Wraparound disambiguation of the 16-bit register.
    pub qei: QeiManager,
    /// Instantaneous rate from the per-tick positional delta.
    pub rate: RateEstimator,
    /// Moving average over the instantaneous rate stream.
    pub smoother: MovingAverageFilter,
}

impl Tachometer {
    /// Well-formedness of the rate and smoothing components.
    pub open spec fn wf(self) -> bool {
        &&& self.rate.wf()
        &&& self.smoother.wf()
    }

    /// The accumulated position leaves room for one more tick's
    /// displacement within what the rate estimator accepts; the tick
    /// driver re-establishes this before every tick.
    pub open spec fn has_headroom(self) -> bool {
        -(MAX_POSITION_MAGNITUDE - 0x10000) <= self.qei.counter <= MAX_POSITION_MAGNITUDE - 0x10000
    }

    /// The position reported by a tick with raw sample `raw`.
    pub open spec fn position_after(self, raw: u16) -> int {
        next_qei(self.qei, raw).counter as int
    }

    /// The instantaneous rate fed to the smoother by a tick with raw
    /// sample `raw`.
    pub open spec fn rate_after(self, raw: u16) -> int {
        (self.position_after(raw) - self.rate.last_position) * self.rate.scale
    }

    /// Create a tachometer at position zero with an empty smoothing
    /// window of the given capacity.
    pub fn new(capacity: usize, scale: i64) -> (t: Tachometer)
        requires
            1 <= capacity <= crate::filter::MAX_CAPACITY,
            0 <= scale <= MAX_SCALE,
        ensures
            t.wf(),
            t.qei.counter == 0,
            t.qei.previous_count == 0,
            t.rate.last_position == 0,
            t.rate.scale == scale,
            t.smoother.capacity == capacity,
            t.smoother.samples() =~= Seq::<i64>::empty(),
    {
        Tachometer {
            qei: QeiManager::new(),
            rate: RateEstimator::new(scale),
            smoother: MovingAverageFilter::new(capacity),
        }
    }

    /// Run one measurement tick on a raw register sample: disambiguate
    /// the sample into the cumulative position, derive the instantaneous
    /// rate from the positional delta, feed it to the smoother, and hand
    /// back the position and the smoothed rate. An ambiguous sample
    /// leaves the position unchanged for this tick, so the delta — and
    /// with it the fed rate — is zero whenever the position did not move.
    pub fn tick(&mut self, raw: u16) -> (out: (i64, i64))
        requires
            old(self).wf(),
            old(self).has_headroom(),
        ensures
            final(self).wf(),
            -MAX_POSITION_MAGNITUDE <= final(self).qei.counter <= MAX_POSITION_MAGNITUDE,
            final(self).qei == next_qei(old(self).qei, raw),
            out.0 == old(self).position_after(raw),
            final(self).rate.last_position == old(self).position_after(raw),
            final(self).rate.scale == old(self).rate.scale,
            final(self).smoother.capacity == old(self).smoother.capacity,
            final(self).smoother.samples() == old(self).smoother.fed(
                old(self).rate_after(raw) as i64,
            ),
            out.1 == div_toward_zero(
                seq_sum(final(self).smoother.samples()),
                final(self).smoother.samples().len() as int,
            ),
    {
        // An ambiguous sample is skipped here on purpose: the position
        // stays put and the next tick retries against the same reference.
        let _ = self.qei.sample(raw);
        let position: i64 = self.qei.count();
        let instantaneous: i64 = self.rate.update(position);
        let smoothed: i64 = self.smoother.feed(instantaneous);
        (position, smoothed)
    }
}

} // verus!
