//! Instantaneous rate from the per-tick positional delta.
//!
//! Called once per fixed tick period, the estimator reports the change in
//! position since the previous tick, multiplied by a configuration
//! constant that converts one position count per tick into the desired
//! physical unit (ticks per minute, say). Positions and the scale are
//! bounded so that the product provably stays within the magnitude the
//! smoothing filter accepts.

use vstd::prelude::*;

verus! {

/// Largest position magnitude the estimator accepts (2^24 counts).
pub const MAX_POSITION_MAGNITUDE: i64 = 0x100_0000;

/// Largest unit-conversion scale the estimator accepts (2^20).
pub const MAX_SCALE: i64 = 0x10_0000;

/// Per-tick rate estimator over a position that is sampled at a fixed
/// period.
pub struct RateEstimator {
    /// Position recorded at the previous tick.
    pub last_position: i64,
    /// Constant factor converting one count per tick into the reported
    /// rate unit.
    pub scale: i64,
}

impl RateEstimator {
    /// Well-formedness: the recorded position and the scale stay within
    /// the bounds that keep the reported rate within 2^45.
    pub open spec fn wf(self) -> bool {
        &&& -MAX_POSITION_MAGNITUDE <= self.last_position <= MAX_POSITION_MAGNITUDE
        &&& 0 <= self.scale <= MAX_SCALE
    }

    /// Create an estimator with the recorded position at zero.
    pub fn new(scale: i64) -> (e: RateEstimator)
        requires
            0 <= scale <= MAX_SCALE,
        ensures
            e.wf(),
            e.last_position == 0,
            e.scale == scale,
    {
        RateEstimator { last_position: 0, scale }
    }

    /// Record the position at this tick and report the instantaneous
    /// rate: the positional delta since the previous tick times the
    /// configured scale. The position is recorded unconditionally, so a
    /// tick on which the position did not move reports exactly zero.
    pub fn update(&mut self, current_position: i64) -> (rate: i64)
        requires
            old(self).wf(),
            -MAX_POSITION_MAGNITUDE <= current_position <= MAX_POSITION_MAGNITUDE,
        ensures
            final(self).wf(),
            final(self).last_position == current_position,
            final(self).scale == old(self).scale,
            rate == (current_position - old(self).last_position) * old(self).scale,
            -crate::filter::MAX_SAMPLE_MAGNITUDE <= rate <= crate::filter::MAX_SAMPLE_MAGNITUDE,
            current_position == old(self).last_position ==> rate == 0,
    {
        let delta: i64 = current_position - self.last_position;
        self.last_position = current_position;
        proof {
            assert(-0x2000_0000_0000 <= delta * self.scale <= 0x2000_0000_0000)
                by (nonlinear_arith)
                requires
                    -0x200_0000 <= delta <= 0x200_0000,
                    0 <= self.scale <= 0x10_0000,
            ;
            assert(delta == 0 ==> delta * self.scale == 0) by (nonlinear_arith);
        }
        delta * self.scale
    }
}

} // verus!
