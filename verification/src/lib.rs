//! Validation of building-model elements against a schema of required
//! property groups ("psets") and parameters.
//!
//! The engine decides, for each element of an input list, whether the
//! element carries every required property group and every required
//! parameter, and folds the per-element outcomes into a global report and
//! a per-floor breakdown.  It is a pure, total function of its inputs:
//! no I/O, no persisted state, no failure mode once the inputs are in the
//! shapes of [`model`].

pub mod aggregate;
pub mod laws;
pub mod model;
pub mod sums;
pub mod validate;
