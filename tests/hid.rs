use ongeki_io::config::HIDConfig;
use ongeki_io::drivers::hid::{i16_from_be, HidAction, HidIO, HidLight, HidRead};
use ongeki_io::led::LedColor;

fn hid_config(left: i16, right: i16) -> HIDConfig {
    HIDConfig { enabled: true, vid: 0x2341, pid: 0x8036, interface: 1, lever_left: left, lever_right: right }
}

fn frame(flags: [u8; 10], sample: i16) -> [u8; 64] {
    let mut data = [0u8; 64];
    data[..10].copy_from_slice(&flags);
    let bytes = sample.to_be_bytes();
    data[10] = bytes[0];
    data[11] = bytes[1];
    data
}

#[test]
fn hid_map_test() {
    let temp = ongeki_io::drivers::hid::map(12, -280, 280, -20000, 20000);
    assert_eq!(temp, 857);
}

#[test]
fn map_degenerate_interval_gives_out_min() {
    assert_eq!(ongeki_io::drivers::hid::map(7, 3, 3, -5, 5), -5);
}

#[test]
fn map_truncates_toward_zero() {
    // -7 / 2 truncates to -3, not -4
    assert_eq!(ongeki_io::drivers::hid::map(1, 0, 2, 0, -7), -3);
    assert_eq!(ongeki_io::drivers::hid::map(1, 0, 2, 0, 7), 3);
}

#[test]
fn map_reversed_input_interval() {
    assert_eq!(ongeki_io::drivers::hid::map(10, 20, 0, 0, 100), 50);
    assert_eq!(ongeki_io::drivers::hid::map(20, 20, 0, 0, 100), 0);
}

#[test]
fn map_full_lever_range_has_no_overflow() {
    assert_eq!(ongeki_io::drivers::hid::map(32767, -32768, 32767, -32768, 32768), 32768);
    assert_eq!(ongeki_io::drivers::hid::map(-32768, -32768, 32767, -32768, 32768), -32768);
    assert_eq!(ongeki_io::drivers::hid::map(0, -32768, 32767, -32768, 32768), 0);
}

#[test]
fn map_is_bounded_and_monotone_over_interval() {
    let (lo, hi) = (-280, 280);
    let mut prev = i32::MIN;
    for s in lo..=hi {
        let v = ongeki_io::drivers::hid::map(s, lo, hi, -32768, 32768);
        assert!((-32768..=32768).contains(&v));
        assert!(v >= prev);
        prev = v;
    }
}

#[test]
fn be_bytes_decode() {
    assert_eq!(i16_from_be(0x01, 0x02), 0x0102);
    assert_eq!(i16_from_be(0xFF, 0xFF), -1);
    assert_eq!(i16_from_be(0x80, 0x00), i16::MIN);
    assert_eq!(i16_from_be(0x7F, 0xFF), i16::MAX);
}

#[test]
fn new_hid_is_idle() {
    let h = HidIO::new(hid_config(10, 20));
    assert_eq!(h.lever(), 0);
    assert_eq!(h.left_btns(), 0);
    assert_eq!(h.right_btns(), 0);
    assert_eq!(h.config(), hid_config(10, 20));
}

#[test]
fn frame_decodes_buttons() {
    let mut h = HidIO::new(hid_config(-100, 100));
    let action = h.poll(HidRead::Frame(frame([1, 0, 1, 0, 1, 0, 1, 0, 1, 1], 0)));
    assert_eq!(action, HidAction::Keep);
    assert_eq!(h.left_btns(), 0x01 | 0x04 | 0x10);
    assert_eq!(h.right_btns(), 0x02 | 0x08 | 0x10);
}

#[test]
fn flag_bytes_other_than_one_are_not_pressed() {
    let mut h = HidIO::new(hid_config(-100, 100));
    h.poll(HidRead::Frame(frame([2, 255, 0, 0, 0, 0, 0, 0, 0, 7], 0)));
    assert_eq!(h.left_btns(), 0);
    assert_eq!(h.right_btns(), 0);
}

#[test]
fn frame_maps_lever_within_bounds() {
    let mut h = HidIO::new(hid_config(-280, 280));
    h.poll(HidRead::Frame(frame([0; 10], 12)));
    // (12 + 280) * 65536 / 560 - 32768
    assert_eq!(h.lever(), 1404);
    assert_eq!(h.config().lever_left, -280);
    assert_eq!(h.config().lever_right, 280);
}

#[test]
fn calibration_widens_bounds_normal_orientation() {
    let mut h = HidIO::new(hid_config(-10, 10));
    h.poll(HidRead::Frame(frame([0; 10], 50)));
    assert_eq!(h.config().lever_left, -10);
    assert_eq!(h.config().lever_right, 50);
    // sample at the top of the range maps to 32768, narrowed to 16 bits
    assert_eq!(h.lever(), i16::MIN);
    h.poll(HidRead::Frame(frame([0; 10], -30)));
    assert_eq!(h.config().lever_left, -30);
    assert_eq!(h.config().lever_right, 50);
    assert_eq!(h.lever(), -32768);
}

#[test]
fn calibration_widens_bounds_reversed_orientation() {
    let mut h = HidIO::new(hid_config(10, -10));
    h.poll(HidRead::Frame(frame([0; 10], 30)));
    assert_eq!(h.config().lever_left, 30);
    assert_eq!(h.config().lever_right, -10);
    h.poll(HidRead::Frame(frame([0; 10], -40)));
    assert_eq!(h.config().lever_left, 30);
    assert_eq!(h.config().lever_right, -40);
    // in the middle of [-40, 30]: (-5 + 40) * 65536 / 70 - 32768
    h.poll(HidRead::Frame(frame([0; 10], -5)));
    assert_eq!(h.lever(), 0);
}

#[test]
fn default_bounds_map_full_range() {
    let mut h = HidIO::new(hid_config(i16::MAX, i16::MIN));
    h.poll(HidRead::Frame(frame([0; 10], 0)));
    assert_eq!(h.config().lever_left, i16::MAX);
    assert_eq!(h.config().lever_right, i16::MIN);
    assert_eq!(h.lever(), 0);
    h.poll(HidRead::Frame(frame([0; 10], i16::MIN)));
    assert_eq!(h.lever(), -32768);
}

#[test]
fn degenerate_bounds_keep_previous_lever() {
    let mut h = HidIO::new(hid_config(5, 5));
    h.poll(HidRead::Frame(frame([1, 0, 0, 0, 0, 0, 0, 0, 0, 0], 5)));
    assert_eq!(h.lever(), 0);
    assert_eq!(h.config().lever_left, 5);
    assert_eq!(h.config().lever_right, 5);
    assert_eq!(h.left_btns(), 0x01);
}

#[test]
fn absent_device_polls_change_nothing() {
    let mut h = HidIO::new(hid_config(-280, 280));
    h.poll(HidRead::Frame(frame([1, 1, 0, 0, 0, 0, 0, 0, 0, 1], 100)));
    let (lever, left, right, config) = (h.lever(), h.left_btns(), h.right_btns(), h.config());
    for _ in 0..5 {
        assert_eq!(h.poll(HidRead::Absent), HidAction::Reconnect);
        assert_eq!(h.lever(), lever);
        assert_eq!(h.left_btns(), left);
        assert_eq!(h.right_btns(), right);
        assert_eq!(h.config(), config);
    }
}

#[test]
fn failed_read_clears_buttons_and_disconnects() {
    let mut h = HidIO::new(hid_config(-280, 280));
    h.poll(HidRead::Frame(frame([1, 1, 1, 1, 1, 1, 1, 1, 1, 1], 100)));
    let lever = h.lever();
    assert_eq!(h.poll(HidRead::Failed), HidAction::Disconnect);
    assert_eq!(h.left_btns(), 0);
    assert_eq!(h.right_btns(), 0);
    assert_eq!(h.lever(), lever);
}

#[test]
fn write_outcome_decides_connection() {
    assert_eq!(HidAction::after_write(true), HidAction::Keep);
    assert_eq!(HidAction::after_write(false), HidAction::Disconnect);
}

#[test]
fn legacy_light_report_when_linked() {
    let h = HidIO::new(hid_config(0, 1));
    match h.set_led(0x800000 | 0x40, true) {
        HidLight::Write(report) => {
            assert_eq!(report.len(), 65);
            assert_eq!(&report[..3], &[0, 0, 100]);
            assert_eq!(report[3], 255);
            assert_eq!(report[3 + 17], 255);
            assert!(report[4..20].iter().all(|&b| b == 0));
            assert!(report[21..].iter().all(|&b| b == 0));
        }
        _ => panic!("expected a report"),
    }
    assert!(matches!(h.set_led(0xFFFFFF, false), HidLight::Reconnect));
}

#[test]
fn color_light_only_for_board_one() {
    let h = HidIO::new(hid_config(0, 1));
    let colors: Vec<LedColor> = (0..8u8).map(|i| LedColor { r: i, g: i + 10, b: i + 20 }).collect();
    assert!(matches!(h.set_led_new(0, &colors, true), HidLight::Ignore));
    assert!(matches!(h.set_led_new(2, &colors, false), HidLight::Ignore));
    assert!(matches!(h.set_led_new(1, &colors, false), HidLight::Reconnect));
    match h.set_led_new(1, &colors, true) {
        HidLight::Write(report) => {
            assert_eq!(report.len(), 65);
            assert_eq!(&report[..3], &[0, 0, 100]);
            let expected: Vec<u8> = (0..6u8).flat_map(|i| [i, i + 10, i + 20]).collect();
            assert_eq!(&report[3..21], &expected[..]);
            assert!(report[21..].iter().all(|&b| b == 0));
        }
        _ => panic!("expected a report"),
    }
}

#[test]
fn config_matches_device_identity() {
    let c = hid_config(0, 0);
    assert!(c.matches(0x2341, 0x8036, 1));
    assert!(!c.matches(0x2341, 0x8036, 0));
    assert!(!c.matches(0x2342, 0x8036, 1));
    assert!(!c.matches(0x2341, 0x8037, 1));
}
