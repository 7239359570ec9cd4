//! Core library of a technical-indicator recomputation service.
//!
//! The library recomputes windowed trading indicators (moving averages,
//! RSI, volume anomaly scores and short-horizon forward labels) from raw
//! per-minute price candles, incrementally and resumably.  Prices arrive
//! from the data store as fixed-point values (integer units plus a
//! nanosecond-scale fractional part); all indicator arithmetic here is
//! carried out exactly over that fixed-point representation, so every
//! published value is an exact rational number.  The conversion to the
//! floating-point columns of the destination store happens outside this
//! library, at the I/O boundary.

pub mod calculator;
pub mod config;
pub mod driver;
pub mod env;
pub mod indicators;
pub mod logger;
pub mod model;
pub mod ratio;
pub mod scheduler;
pub mod sink;
pub mod text;
pub mod timefeat;
