use ongeki_io::drivers::led_debug::LEDebug;
use ongeki_io::led::{board_len, board_payload, colors_from_bytes, legacy_levels, report, LedColor};

#[test]
fn legacy_top_bit_lights_first_output() {
    let levels = legacy_levels(0x800000);
    assert_eq!(levels.len(), 18);
    assert_eq!(levels[0], 255);
    assert!(levels[1..].iter().all(|&b| b == 0));
}

#[test]
fn legacy_bit_order_follows_remap_table() {
    let order = [23, 19, 22, 20, 21, 18, 17, 16, 15, 14, 13, 12, 11, 10, 9, 8, 7, 6];
    for (pos, bit) in order.iter().enumerate() {
        let levels = legacy_levels(1u32 << bit);
        for (i, level) in levels.iter().enumerate() {
            assert_eq!(*level, if i == pos { 255 } else { 0 });
        }
    }
    assert!(legacy_levels(0x3F).iter().all(|&b| b == 0));
    assert!(legacy_levels(0xFF00_0000).iter().all(|&b| b == 0));
    assert!(legacy_levels(0xFFFFFF).iter().all(|&b| b == 255));
}

#[test]
fn debug_sink_shows_same_levels() {
    assert_eq!(LEDebug::new().set_led(0x480040), legacy_levels(0x480040));
}

#[test]
fn report_layout() {
    let r = report(&vec![9, 8, 7]);
    assert_eq!(r.len(), 65);
    assert_eq!(&r[..6], &[0, 0, 100, 9, 8, 7]);
    assert!(r[6..].iter().all(|&b| b == 0));
    assert_eq!(report(&vec![]).len(), 65);
}

#[test]
fn bytes_group_into_colors() {
    let c = colors_from_bytes(&vec![1, 2, 3, 4, 5, 6, 7]);
    assert_eq!(c, vec![LedColor { r: 1, g: 2, b: 3 }, LedColor { r: 4, g: 5, b: 6 }]);
    assert_eq!(colors_from_bytes(&vec![0; 183]).len(), 61);
    assert!(colors_from_bytes(&vec![1, 2]).is_empty());
}

#[test]
fn board_payload_takes_first_six_colors() {
    let colors: Vec<LedColor> = (0..10u8).map(|i| LedColor { r: i, g: 0, b: 255 - i }).collect();
    let p = board_payload(&colors);
    assert_eq!(p.len(), 18);
    assert_eq!(&p[..6], &[0, 0, 255, 1, 0, 254]);
    assert_eq!(board_payload(&colors[..2].to_vec()), vec![0, 0, 255, 1, 0, 254]);
}

#[test]
fn board_lengths() {
    assert_eq!(board_len(0), 183);
    assert_eq!(board_len(1), 18);
    assert_eq!(board_len(7), 18);
}
