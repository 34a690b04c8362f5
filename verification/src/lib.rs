//! Verified core of a face tracker: the detect-or-track state machine, the
//! re-acquisition policy and the derivation of the region that encloses the
//! tracked points.

pub mod geometry;
pub mod guarantees;
pub mod motion;
pub mod scalar;
pub mod tracker;
