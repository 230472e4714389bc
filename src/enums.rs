//! Button bit assignments and host result codes.
use vstd::prelude::*;

verus! {

/// Operator buttons (test, service, coin).
#[derive(Debug, Copy, Clone, PartialEq, Eq, Structural)]
pub enum OpBtn {
    Test,
    Service,
    Coin,
}

impl OpBtn {
    /// The bit this button occupies in an operator mask.
    pub open spec fn spec_bit(self) -> u8 {
        match self {
            OpBtn::Test => 0x01,
            OpBtn::Service => 0x02,
            OpBtn::Coin => 0x04,
        }
    }

    pub fn bit(self) -> (r: u8)
        ensures
            r == self.spec_bit(),
    {
        match self {
            OpBtn::Test => 0x01,
            OpBtn::Service => 0x02,
            OpBtn::Coin => 0x04,
        }
    }
}

/// Game buttons of one (left or right) cluster.
#[derive(Debug, Copy, Clone, PartialEq, Eq, Structural)]
pub enum GameBtn {
    Btn1,
    Btn2,
    Btn3,
    Side,
    Menu,
}

impl GameBtn {
    /// The bit this button occupies in a cluster mask.
    pub open spec fn spec_bit(self) -> u8 {
        match self {
            GameBtn::Btn1 => 0x01,
            GameBtn::Btn2 => 0x02,
            GameBtn::Btn3 => 0x04,
            GameBtn::Side => 0x08,
            GameBtn::Menu => 0x10,
        }
    }

    pub fn bit(self) -> (r: u8)
        ensures
            r == self.spec_bit(),
    {
        match self {
            GameBtn::Btn1 => 0x01,
            GameBtn::Btn2 => 0x02,
            GameBtn::Btn3 => 0x04,
            GameBtn::Side => 0x08,
            GameBtn::Menu => 0x10,
        }
    }
}

/// Result code reported to the host.
#[derive(Debug, Copy, Clone, PartialEq, Eq, Structural)]
pub enum HResult {
    Success,
    Bad,
}

impl HResult {
    /// The numeric code the host expects.
    pub fn code(self) -> (r: u64)
        ensures
            r == (match self {
                HResult::Success => 0u64,
                HResult::Bad => 1u64,
            }),
    {
        match self {
            HResult::Success => 0,
            HResult::Bad => 1,
        }
    }
}

} // verus!
