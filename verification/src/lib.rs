//! Conversion of radio-frequency pulse samples into a piecewise-circular
//! three-dimensional curve, the effective rotation trajectory predicted by
//! average Hamiltonian theory for a spin system.
//!
//! Every quantity is a fixed-point scalar with nine fractional decimal
//! digits, so that the whole geometric construction is exact integer
//! arithmetic with explicit saturation and rounding, and each function's
//! contract pins its result completely.

pub mod aht;
pub mod bruker;
pub mod fixed;
pub mod trig;
pub mod vec3;
