//! Timestamp-aware, duration-windowed indicator machinery.
//!
//! Every observation carries a UTC timestamp. Windows expire observations by
//! elapsed time, and repeated updates inside the current time bucket replace
//! the live observation instead of advancing the series.

pub mod errors;
pub mod time;
pub mod indicators;
