//! Input/output layer for an arcade controller: drivers with optional
//! capabilities, a registry that aggregates them, lever calibration and
//! LED frame encoding.
use vstd::prelude::*;

pub mod config;
pub mod drivers;
pub mod enums;
pub mod led;
pub mod lever;

verus! {

/// Version of the host interface implemented by this library.
pub const API_VERSION: u16 = 0x0101;

} // verus!
