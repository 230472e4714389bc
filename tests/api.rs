use ongeki_io::config::Config;
use ongeki_io::enums::{GameBtn, HResult, OpBtn};
use ongeki_io::API_VERSION;

#[test]
fn lib_map_test() {
    let temp = ongeki_io::drivers::hid::map(12, -280, 280, -20000, 20000);
    assert_eq!(temp, 857);
}

#[test]
fn api_version_is_fixed() {
    assert_eq!(API_VERSION, 0x0101);
}

#[test]
fn button_bits() {
    assert_eq!(OpBtn::Test.bit(), 0x01);
    assert_eq!(OpBtn::Service.bit(), 0x02);
    assert_eq!(OpBtn::Coin.bit(), 0x04);
    assert_eq!(GameBtn::Btn1.bit(), 0x01);
    assert_eq!(GameBtn::Btn2.bit(), 0x02);
    assert_eq!(GameBtn::Btn3.bit(), 0x04);
    assert_eq!(GameBtn::Side.bit(), 0x08);
    assert_eq!(GameBtn::Menu.bit(), 0x10);
}

#[test]
fn result_codes() {
    assert_eq!(HResult::Success.code(), 0);
    assert_eq!(HResult::Bad.code(), 1);
}

#[test]
fn default_config() {
    let c = Config::default();
    assert!(c.keyboard.enabled);
    assert_eq!((c.keyboard.test, c.keyboard.service, c.keyboard.coin), (0x31, 0x32, 0x33));
    assert!(c.mouse.enabled);
    assert!(c.led_debug.enabled);
    assert!(!c.hid.enabled);
    assert_eq!((c.hid.vid, c.hid.pid, c.hid.interface), (0x2341, 0x8036, 1));
    assert_eq!((c.hid.lever_left, c.hid.lever_right), (i16::MAX, i16::MIN));
}
