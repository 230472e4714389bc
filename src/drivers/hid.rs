//! HID control board: frame decoding, self-calibrating lever and the
//! decisions taken around a transport that may disappear at any time.
use vstd::prelude::*;

use crate::config::HIDConfig;
use crate::enums::GameBtn;
use crate::led::{
    board_payload, board_payload_of, legacy_levels, legacy_levels_of, report, report_of, LedColor,
};
use crate::lever::{
    lemma_lever_map_bounded_monotone, map_value, narrow_i16, wrap_i16, LEVER_OUT_MAX, LEVER_OUT_MIN,
};

verus! {

use vstd::arithmetic::div_mod::lemma_div_is_ordered_by_denominator;

/// Linear integer map of `x` from `[in_min, in_max]` onto `[out_min, out_max]`.
///
/// The arithmetic is carried out wide enough that no intermediate value
/// overflows; only the result has to fit in an `i32`.
pub fn map(x: i32, in_min: i32, in_max: i32, out_min: i32, out_max: i32) -> (r: i32)
    requires
        i32::MIN <= map_value(x as int, in_min as int, in_max as int, out_min as int, out_max as int)
            <= i32::MAX,
    ensures
        r == map_value(x as int, in_min as int, in_max as int, out_min as int, out_max as int),
{
    let span: i128 = in_max as i128 - in_min as i128;
    if span == 0 {
        return out_min;
    }
    let offset: i128 = x as i128 - in_min as i128;
    let width: i128 = out_max as i128 - out_min as i128;
    assert(-0x1_0000_0000_0000_0000 <= offset * width <= 0x1_0000_0000_0000_0000) by (nonlinear_arith)
        requires
            -0x1_0000_0000 <= offset <= 0x1_0000_0000,
            -0x1_0000_0000 <= width <= 0x1_0000_0000,
    ;
    let num: i128 = offset * width;
    let num_mag: u128 = if num < 0 {
        (0 - num) as u128
    } else {
        num as u128
    };
    let span_mag: u128 = if span < 0 {
        (0 - span) as u128
    } else {
        span as u128
    };
    let q: u128 = num_mag / span_mag;
    proof {
        lemma_div_is_ordered_by_denominator(num_mag as int, 1, span_mag as int);
    }
    let quot: i128 = if (num >= 0) == (span > 0) {
        q as i128
    } else {
        0 - q as i128
    };
    (quot + out_min as i128) as i32
}

/// One flag byte of a frame as the bit it stands for.
pub open spec fn flag_bit(flag: u8, bit: u8) -> u8 {
    if flag == 1 {
        bit
    } else {
        0
    }
}

/// The cluster mask carried by the five flag bytes of `frame` from `start`.
pub open spec fn cluster_mask(frame: Seq<u8>, start: int) -> u8 {
    flag_bit(frame[start], GameBtn::Btn1.spec_bit()) | flag_bit(frame[start + 1], GameBtn::Btn2.spec_bit())
        | flag_bit(frame[start + 2], GameBtn::Btn3.spec_bit()) | flag_bit(
        frame[start + 3],
        GameBtn::Side.spec_bit(),
    ) | flag_bit(frame[start + 4], GameBtn::Menu.spec_bit())
}

/// The big-endian signed 16-bit value of two bytes.
pub open spec fn be_i16(hi: u8, lo: u8) -> int {
    let u = hi * 256 + lo;
    if u >= 0x8000 {
        u - 0x10000
    } else {
        u
    }
}

/// The raw lever sample of a frame.
pub open spec fn frame_sample(frame: Seq<u8>) -> i16 {
    be_i16(frame[10], frame[11]) as i16
}

/// Bounds after observing `sample`.  The current order of the two bounds
/// decides the regime: when `left > right` the left bound tracks the
/// maximum and the right bound the minimum, otherwise the reverse.
pub open spec fn widen_bounds(left: i16, right: i16, sample: i16) -> (i16, i16) {
    if left > right {
        (if sample > left { sample } else { left }, if sample < right { sample } else { right })
    } else {
        (if sample < left { sample } else { left }, if sample > right { sample } else { right })
    }
}

/// Widening only moves a bound outward, keeps the sample between the two
/// bounds, and never changes which bound is the larger: the regime chosen
/// by the configured order of the bounds stays for the whole session.
pub proof fn lemma_widen_bounds(left: i16, right: i16, sample: i16)
    ensures
        ({
            let (l, r) = widen_bounds(left, right, sample);
            &&& (l > r) == (left > right)
            &&& (if l < r { l } else { r }) <= sample <= (if l < r { r } else { l })
            &&& (if l < r { l } else { r }) <= (if left < right { left } else { right })
            &&& (if left < right { right } else { left }) <= (if l < r { r } else { l })
        }),
{
}

/// Lever reading for `sample` between bounds given in either order.
pub open spec fn lever_reading(sample: i16, left: i16, right: i16) -> i16 {
    let in_min = if left < right { left } else { right };
    let in_max = if left < right { right } else { left };
    wrap_i16(
        map_value(sample as int, in_min as int, in_max as int, LEVER_OUT_MIN as int, LEVER_OUT_MAX as int),
    )
}

/// What one poll of the transport produced.
#[derive(Debug, Copy, Clone)]
pub enum HidRead {
    /// No device is connected.
    Absent,
    /// The device was connected but reading from it failed.
    Failed,
    /// A raw frame was read.
    Frame([u8; 64]),
}

/// What the owner of the transport must do next.
#[derive(Debug, Copy, Clone, PartialEq, Eq, Structural)]
pub enum HidAction {
    /// Keep the connection as it is.
    Keep,
    /// No device is connected: scan for it and connect.
    Reconnect,
    /// The device failed: release the handle.
    Disconnect,
}

impl HidAction {
    /// Decision after writing to the device.
    pub fn after_write(written: bool) -> (r: HidAction)
        ensures
            r == (if written { HidAction::Keep } else { HidAction::Disconnect }),
    {
        if written {
            HidAction::Keep
        } else {
            HidAction::Disconnect
        }
    }
}

/// The action a poll asks for, given what was read.
pub open spec fn poll_action(read: HidRead) -> HidAction {
    match read {
        HidRead::Absent => HidAction::Reconnect,
        HidRead::Failed => HidAction::Disconnect,
        HidRead::Frame(_) => HidAction::Keep,
    }
}

/// What the HID board does with a light frame.
pub enum HidLight {
    /// Write this report to the device.
    Write(Vec<u8>),
    /// No device is connected: scan for it and connect; the frame is dropped.
    Reconnect,
    /// The frame is not for this board.
    Ignore,
}

/// The model of a [`HidLight`].
pub enum HidLightView {
    Write(Seq<u8>),
    Reconnect,
    Ignore,
}

impl View for HidLight {
    type V = HidLightView;

    open spec fn view(&self) -> HidLightView {
        match self {
            HidLight::Write(r) => HidLightView::Write(r@),
            HidLight::Reconnect => HidLightView::Reconnect,
            HidLight::Ignore => HidLightView::Ignore,
        }
    }
}

/// Board whose colours the HID controller drives.
pub const HID_BOARD: u8 = 1;

/// The HID board's answer to a legacy mask.
pub open spec fn hid_legacy_light(mask: u32, linked: bool) -> HidLightView {
    if linked {
        HidLightView::Write(report_of(legacy_levels_of(mask)))
    } else {
        HidLightView::Reconnect
    }
}

/// The HID board's answer to a colour frame for `board`.
pub open spec fn hid_color_light(board: u8, colors: Seq<LedColor>, linked: bool) -> HidLightView {
    if board != HID_BOARD {
        HidLightView::Ignore
    } else if linked {
        HidLightView::Write(report_of(board_payload_of(colors)))
    } else {
        HidLightView::Reconnect
    }
}

/// The model of the HID driver's state.
pub struct HidView {
    pub lever: i16,
    pub left_btns: u8,
    pub right_btns: u8,
    pub config: HIDConfig,
}

/// State after decoding one frame.
pub open spec fn after_frame(s: HidView, frame: Seq<u8>) -> HidView {
    let sample = frame_sample(frame);
    let (left, right) = widen_bounds(s.config.lever_left, s.config.lever_right, sample);
    HidView {
        lever: if left == right {
            s.lever
        } else {
            lever_reading(sample, left, right)
        },
        left_btns: cluster_mask(frame, 0),
        right_btns: cluster_mask(frame, 5),
        config: HIDConfig { lever_left: left, lever_right: right, ..s.config },
    }
}

/// State after one poll.
pub open spec fn after_poll(s: HidView, read: HidRead) -> HidView {
    match read {
        HidRead::Absent => s,
        HidRead::Failed => HidView { left_btns: 0, right_btns: 0, ..s },
        HidRead::Frame(frame) => after_frame(s, frame@),
    }
}

/// State after a series of polls.
pub open spec fn after_polls(s: HidView, reads: Seq<HidRead>) -> HidView
    decreases reads.len(),
{
    if reads.len() == 0 {
        s
    } else {
        after_poll(after_polls(s, reads.drop_last()), reads.last())
    }
}

/// Polling while no device is connected, any number of times, leaves the
/// buttons, the lever and the calibration bounds as they were.
pub proof fn lemma_absent_polls_keep_state(s: HidView, reads: Seq<HidRead>)
    requires
        forall|i: int| 0 <= i < reads.len() ==> #[trigger] reads[i] is Absent,
    ensures
        after_polls(s, reads) == s,
    decreases reads.len(),
{
    if reads.len() > 0 {
        assert(reads.last() is Absent);
        lemma_absent_polls_keep_state(s, reads.drop_last());
    }
}

/// The HID control board driver.
pub struct HidIO {
    lever: i16,
    left_btns: u8,
    right_btns: u8,
    config: HIDConfig,
}

impl View for HidIO {
    type V = HidView;

    closed spec fn view(&self) -> HidView {
        HidView {
            lever: self.lever,
            left_btns: self.left_btns,
            right_btns: self.right_btns,
            config: self.config,
        }
    }
}

/// One flag byte as the bit it stands for.
fn flag_bit_of(flag: u8, bit: u8) -> (r: u8)
    ensures
        r == flag_bit(flag, bit),
{
    if flag == 1 {
        bit
    } else {
        0
    }
}

/// The cluster mask of the five flag bytes from `start`.
fn cluster_mask_of(frame: &[u8; 64], start: usize) -> (r: u8)
    requires
        start + 5 <= 64,
    ensures
        r == cluster_mask(frame@, start as int),
{
    flag_bit_of(frame[start], GameBtn::Btn1.bit()) | flag_bit_of(frame[start + 1], GameBtn::Btn2.bit())
        | flag_bit_of(frame[start + 2], GameBtn::Btn3.bit()) | flag_bit_of(
        frame[start + 3],
        GameBtn::Side.bit(),
    ) | flag_bit_of(frame[start + 4], GameBtn::Menu.bit())
}

/// The big-endian signed 16-bit value of two bytes.
pub fn i16_from_be(hi: u8, lo: u8) -> (r: i16)
    ensures
        r == be_i16(hi, lo),
{
    let u: i32 = hi as i32 * 256 + lo as i32;
    if u >= 0x8000 {
        (u - 0x10000) as i16
    } else {
        u as i16
    }
}

impl HidIO {
    /// Driver state before any frame: centred lever, no buttons, bounds from
    /// the configuration.
    pub fn new(config: HIDConfig) -> (r: Self)
        ensures
            r@ == (HidView { lever: 0, left_btns: 0, right_btns: 0, config }),
    {
        HidIO { lever: 0, left_btns: 0, right_btns: 0, config }
    }

    /// The configuration, with the calibration bounds as observed so far.
    pub fn config(&self) -> (r: HIDConfig)
        ensures
            r == self@.config,
    {
        self.config
    }

    pub fn lever(&self) -> (r: i16)
        ensures
            r == self@.lever,
    {
        self.lever
    }

    /// The board has no operator buttons.
    pub fn op_btns(&self) -> (r: u8)
        ensures
            r == 0,
    {
        0
    }

    pub fn left_btns(&self) -> (r: u8)
        ensures
            r == self@.left_btns,
    {
        self.left_btns
    }

    pub fn right_btns(&self) -> (r: u8)
        ensures
            r == self@.right_btns,
    {
        self.right_btns
    }

    /// Legacy light protocol: the expanded mask, framed as a report, when a
    /// device is connected.
    pub fn set_led(&self, data: u32, linked: bool) -> (r: HidLight)
        ensures
            r@ == hid_legacy_light(data, linked),
    {
        if !linked {
            return HidLight::Reconnect;
        }
        let levels = legacy_levels(data);
        HidLight::Write(report(&levels))
    }

    /// Colour light protocol: only board 1 is driven, with its first six
    /// colours.
    pub fn set_led_new(&self, board: u8, colors: &Vec<LedColor>, linked: bool) -> (r: HidLight)
        ensures
            r@ == hid_color_light(board, colors@, linked),
    {
        if board != HID_BOARD {
            return HidLight::Ignore;
        }
        if !linked {
            return HidLight::Reconnect;
        }
        let payload = board_payload(colors);
        HidLight::Write(report(&payload))
    }

    /// Decode a frame: buttons, bounds widening, then the lever mapping
    /// unless the bounds coincide.
    fn apply_frame(&mut self, frame: &[u8; 64])
        ensures
            final(self)@ == after_frame(old(self)@, frame@),
    {
        self.left_btns = cluster_mask_of(frame, 0);
        self.right_btns = cluster_mask_of(frame, 5);
        let sample = i16_from_be(frame[10], frame[11]);
        let mut left = self.config.lever_left;
        let mut right = self.config.lever_right;
        if left > right {
            if sample > left {
                left = sample;
            }
            if sample < right {
                right = sample;
            }
        } else {
            if sample < left {
                left = sample;
            }
            if sample > right {
                right = sample;
            }
        }
        self.config.lever_left = left;
        self.config.lever_right = right;
        let (in_min, in_max) = if left < right {
            (left, right)
        } else {
            (right, left)
        };
        if left != right {
            proof {
                lemma_widen_bounds(old(self).config.lever_left, old(self).config.lever_right, sample);
                lemma_lever_map_bounded_monotone(sample as int, sample as int, in_min as int, in_max as int);
            }
            let mapped = map(sample as i32, in_min as i32, in_max as i32, LEVER_OUT_MIN, LEVER_OUT_MAX);
            self.lever = narrow_i16(mapped as i64);
        }
    }

    /// One poll: a missing device asks for a reconnect and changes nothing,
    /// a failed read clears the buttons and asks to drop the handle, a frame
    /// is decoded.
    pub fn poll(&mut self, read: HidRead) -> (r: HidAction)
        ensures
            final(self)@ == after_poll(old(self)@, read),
            r == poll_action(read),
            read is Frame && final(self)@.config.lever_left == final(self)@.config.lever_right
                ==> final(self)@.lever == old(self)@.lever,
    {
        match read {
            HidRead::Absent => HidAction::Reconnect,
            HidRead::Failed => {
                self.left_btns = 0;
                self.right_btns = 0;
                HidAction::Disconnect
            },
            HidRead::Frame(frame) => {
                self.apply_frame(&frame);
                HidAction::Keep
            },
        }
    }
}

} // verus!
