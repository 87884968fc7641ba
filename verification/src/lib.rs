//! Verified decision core of a TradingView-style indicator suite.
//!
//! Price arithmetic is floating point and lives outside this crate; what is
//! proved here is every discrete decision the indicators make: window
//! bookkeeping, pivot and sweep detection over order keys, regime and signal
//! classification, and the small state machines that carry trend ages, brick
//! counts and band votes from one bar to the next.

pub mod side;
pub mod keys;
pub mod pivots;
pub mod sweep;
pub mod ribbon;
pub mod renko;
pub mod baseline;
pub mod windows;
pub mod vwap;
pub mod darvas;
pub mod wyckoff;
pub mod momentum;
pub mod smoothing;
