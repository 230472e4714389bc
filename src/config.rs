//! Configuration snapshot from which the drivers are built.
use vstd::prelude::*;

verus! {

/// Keyboard driver settings: the key codes bound to the operator buttons.
#[derive(Debug, Copy, Clone, PartialEq, Eq, Structural)]
pub struct KeyBoardConfig {
    pub enabled: bool,
    pub test: i32,
    pub service: i32,
    pub coin: i32,
}

/// Mouse driver settings.
#[derive(Debug, Copy, Clone, PartialEq, Eq, Structural)]
pub struct MouseConfig {
    pub enabled: bool,
}

/// LED debug sink settings.
#[derive(Debug, Copy, Clone, PartialEq, Eq, Structural)]
pub struct LEDebugConfig {
    pub enabled: bool,
}

/// HID controller settings: device identity and initial lever bounds.
#[derive(Debug, Copy, Clone, PartialEq, Eq, Structural)]
pub struct HIDConfig {
    pub enabled: bool,
    pub vid: u16,
    pub pid: u16,
    pub interface: i32,
    pub lever_left: i16,
    pub lever_right: i16,
}

impl HIDConfig {
    /// Whether an enumerated device is the one this configuration names.
    pub fn matches(&self, vid: u16, pid: u16, interface: i32) -> (r: bool)
        ensures
            r == (vid == self.vid && pid == self.pid && interface == self.interface),
    {
        vid == self.vid && pid == self.pid && interface == self.interface
    }
}

/// The whole configuration document.
#[derive(Debug, Copy, Clone, PartialEq, Eq, Structural)]
pub struct Config {
    pub keyboard: KeyBoardConfig,
    pub mouse: MouseConfig,
    pub hid: HIDConfig,
    pub led_debug: LEDebugConfig,
}

/// The configuration written out when none exists yet.
pub open spec fn default_config() -> Config {
    Config {
        keyboard: KeyBoardConfig { enabled: true, test: 0x31, service: 0x32, coin: 0x33 },
        mouse: MouseConfig { enabled: true },
        hid: HIDConfig {
            enabled: false,
            vid: 0x2341,
            pid: 0x8036,
            interface: 1,
            lever_left: i16::MAX,
            lever_right: i16::MIN,
        },
        led_debug: LEDebugConfig { enabled: true },
    }
}

impl Default for Config {
    fn default() -> (r: Self)
        ensures
            r == default_config(),
    {
        Config {
            keyboard: KeyBoardConfig { enabled: true, test: 0x31, service: 0x32, coin: 0x33 },
            mouse: MouseConfig { enabled: true },
            hid: HIDConfig {
                enabled: false,
                vid: 0x2341,
                pid: 0x8036,
                interface: 1,
                lever_left: i16::MAX,
                lever_right: i16::MIN,
            },
            led_debug: LEDebugConfig { enabled: true },
        }
    }
}

} // verus!
