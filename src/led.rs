//! LED frames: the legacy 24-bit mask expanded to brightness bytes, RGB
//! colours for the addressable boards, and the HID output report.
use vstd::prelude::*;

verus! {

/// Number of lights driven by the legacy mask.
pub const LEGACY_LIGHTS: usize = 18;

/// Length of the report written to the HID board.
pub const REPORT_LEN: usize = 65;

/// Marker byte that precedes the payload of a report.
pub const REPORT_MARKER: u8 = 100;

/// Brightness of a light that is on.
pub const FULL: u8 = 255;

/// Number of colours the HID board drives (board 1).
pub const BOARD_COLORS: usize = 6;

/// One RGB colour.
#[derive(Debug, Copy, Clone, PartialEq, Eq, Structural)]
pub struct LedColor {
    pub r: u8,
    pub g: u8,
    pub b: u8,
}

/// The mask bit that drives output position `i` of the legacy protocol:
/// 23, 19, 22, 20, 21, then 18 down to 6.
pub open spec fn legacy_bit(i: int) -> u32 {
    if i == 0 {
        23
    } else if i == 1 {
        19
    } else if i == 2 {
        22
    } else if i == 3 {
        20
    } else if i == 4 {
        21
    } else {
        (23 - i) as u32
    }
}

/// Brightness for one mask bit: full when set, off otherwise.
pub open spec fn bit_level(mask: u32, bit: u32) -> u8 {
    if (mask >> bit) & 1 == 1 {
        FULL
    } else {
        0
    }
}

/// The eighteen brightness bytes of a legacy mask, in output order.
pub open spec fn legacy_levels_of(mask: u32) -> Seq<u8> {
    Seq::new(LEGACY_LIGHTS as nat, |i: int| bit_level(mask, legacy_bit(i)))
}

/// The report written to the HID board: report id 0, a zero byte, the
/// marker, the payload, then zeros up to the report length.
pub open spec fn report_of(payload: Seq<u8>) -> Seq<u8> {
    seq![0u8, 0u8, REPORT_MARKER] + payload + Seq::new(
        (REPORT_LEN - 3 - payload.len()) as nat,
        |i: int| 0u8,
    )
}

/// Component `c` (0 red, 1 green, 2 blue) of a colour.
pub open spec fn channel(color: LedColor, c: int) -> u8 {
    if c == 0 {
        color.r
    } else if c == 1 {
        color.g
    } else {
        color.b
    }
}

/// Colours laid out as consecutive R, G, B bytes.
pub open spec fn color_bytes(colors: Seq<LedColor>) -> Seq<u8> {
    Seq::new(3 * colors.len(), |i: int| channel(colors[i / 3], i % 3))
}

/// Consecutive R, G, B bytes read as colours; a trailing partial triple is
/// not a colour.
pub open spec fn colors_of(bytes: Seq<u8>) -> Seq<LedColor> {
    Seq::new(
        bytes.len() / 3,
        |i: int| LedColor { r: bytes[3 * i], g: bytes[3 * i + 1], b: bytes[3 * i + 2] },
    )
}

/// The payload the HID board takes from a colour frame: its first six colours.
pub open spec fn board_payload_of(colors: Seq<LedColor>) -> Seq<u8> {
    color_bytes(
        if colors.len() <= BOARD_COLORS {
            colors
        } else {
            colors.take(BOARD_COLORS as int)
        },
    )
}

/// Number of colour bytes the host hands over for a board: 61 colours for
/// board 0, 6 for any other.
pub open spec fn board_len_of(board: u8) -> usize {
    if board == 0 {
        183
    } else {
        18
    }
}

/// The mask bit of legacy output position `i`.
fn legacy_bit_at(i: usize) -> (r: u32)
    requires
        i < LEGACY_LIGHTS,
    ensures
        r == legacy_bit(i as int),
{
    if i == 0 {
        23
    } else if i == 1 {
        19
    } else if i == 2 {
        22
    } else if i == 3 {
        20
    } else if i == 4 {
        21
    } else {
        23 - i as u32
    }
}

/// Expand a legacy 24-bit mask into eighteen brightness bytes, following
/// the physical order of the lights.
pub fn legacy_levels(mask: u32) -> (r: Vec<u8>)
    ensures
        r@ == legacy_levels_of(mask),
{
    let mut levels: Vec<u8> = Vec::new();
    let mut i: usize = 0;
    while i < LEGACY_LIGHTS
        invariant
            i <= LEGACY_LIGHTS,
            levels@ == legacy_levels_of(mask).take(i as int),
        decreases LEGACY_LIGHTS - i,
    {
        let bit = legacy_bit_at(i);
        let level: u8 = if (mask >> bit) & 1 == 1 {
            FULL
        } else {
            0
        };
        levels.push(level);
        i = i + 1;
    }
    levels
}

/// Frame a payload as a HID output report.
pub fn report(payload: &Vec<u8>) -> (r: Vec<u8>)
    requires
        payload.len() <= REPORT_LEN - 3,
    ensures
        r@ == report_of(payload@),
        r@.len() == REPORT_LEN,
{
    let mut out: Vec<u8> = Vec::new();
    out.push(0);
    out.push(0);
    out.push(REPORT_MARKER);
    let mut i: usize = 0;
    while i < payload.len()
        invariant
            i <= payload.len(),
            payload.len() <= REPORT_LEN - 3,
            out@ == seq![0u8, 0u8, REPORT_MARKER] + payload@.take(i as int),
        decreases payload.len() - i,
    {
        out.push(payload[i]);
        i = i + 1;
    }
    assert(payload@.take(payload.len() as int) == payload@);
    let fill: usize = REPORT_LEN - out.len();
    let mut j: usize = 0;
    while j < fill
        invariant
            j <= fill,
            fill == REPORT_LEN - 3 - payload.len(),
            out@ == seq![0u8, 0u8, REPORT_MARKER] + payload@ + Seq::new(j as nat, |k: int| 0u8),
        decreases fill - j,
    {
        out.push(0);
        j = j + 1;
    }
    out
}

/// The bytes of the first six colours, in R, G, B order; fewer colours give
/// a shorter payload.
pub fn board_payload(colors: &Vec<LedColor>) -> (r: Vec<u8>)
    ensures
        r@ == board_payload_of(colors@),
        r@.len() <= 3 * BOARD_COLORS,
{
    let n: usize = if colors.len() <= BOARD_COLORS {
        colors.len()
    } else {
        BOARD_COLORS
    };
    let ghost used = if colors.len() <= BOARD_COLORS {
        colors@
    } else {
        colors@.take(BOARD_COLORS as int)
    };
    let mut out: Vec<u8> = Vec::new();
    let mut i: usize = 0;
    while i < n
        invariant
            i <= n,
            n == used.len(),
            n <= colors.len(),
            forall|k: int| 0 <= k < n ==> used[k] == colors@[k],
            out@ == color_bytes(used).take(3 * i as int),
        decreases n - i,
    {
        let c = colors[i];
        proof {
            assert(used[i as int] == c);
        }
        out.push(c.r);
        out.push(c.g);
        out.push(c.b);
        proof {
            let whole = color_bytes(used);
            assert(whole[3 * i as int] == c.r);
            assert(whole[3 * i as int + 1] == c.g);
            assert(whole[3 * i as int + 2] == c.b);
            assert(out@ == whole.take(3 * (i + 1) as int));
        }
        i = i + 1;
    }
    assert(color_bytes(used).take(3 * n as int) == color_bytes(used));
    out
}

/// Group consecutive bytes into colours.
pub fn colors_from_bytes(bytes: &Vec<u8>) -> (r: Vec<LedColor>)
    ensures
        r@ == colors_of(bytes@),
{
    let n: usize = bytes.len() / 3;
    let mut out: Vec<LedColor> = Vec::new();
    let mut i: usize = 0;
    while i < n
        invariant
            i <= n,
            n == bytes.len() / 3,
            out@ == colors_of(bytes@).take(i as int),
        decreases n - i,
    {
        let c = LedColor { r: bytes[3 * i], g: bytes[3 * i + 1], b: bytes[3 * i + 2] };
        out.push(c);
        i = i + 1;
    }
    out
}

/// How many colour bytes the host hands over for `board`.
pub fn board_len(board: u8) -> (r: usize)
    ensures
        r == board_len_of(board),
{
    if board == 0 {
        183
    } else {
        18
    }
}

} // verus!
