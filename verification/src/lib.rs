//! Verified core of the xSAR sensor logger display.
//!
//! The library reads the harvester's CSV schema, decides which rows are
//! valid sensor samples, aligns each capture at elapsed time zero, and keeps
//! the small pieces of viewer state (loaded runs, selection, channel groups)
//! whose rules do not depend on floating-point arithmetic.

pub mod parameters;
pub mod number;
pub mod data;
pub mod session;
pub mod laws;
