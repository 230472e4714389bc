//! LED debug sink: shows the light frames it receives instead of driving
//! hardware.
use vstd::prelude::*;

use crate::led::{legacy_levels, legacy_levels_of};

verus! {

/// LED debug sink.
#[derive(Debug, Default)]
pub struct LEDebug;

impl LEDebug {
    pub fn new() -> Self {
        LEDebug
    }

    /// The eighteen brightness values to show for a legacy mask: exactly
    /// what the HID board is sent.
    pub fn set_led(&self, data: u32) -> (r: Vec<u8>)
        ensures
            r@ == legacy_levels_of(data),
    {
        legacy_levels(data)
    }
}

} // verus!
