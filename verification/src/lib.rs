//! Cumulative shaft-position tracking from a wrapping 16-bit quadrature
//! counter, together with a per-tick rate estimate and a moving-average
//! smoother over the rate stream.

pub mod filter;
pub mod qei;
pub mod rate;
pub mod tracker;

pub use filter::MovingAverageFilter;
pub use qei::QeiManager;
pub use qei::SamplingError;
pub use rate::RateEstimator;
pub use tracker::Tachometer;
