//! Mouse driver: the cursor's horizontal position as a lever.
use vstd::prelude::*;

use crate::lever::{narrow_i16, wrap_i16};

verus! {

/// Cursor position clamped into `[0, width]`: left of the screen counts as
/// 0, beyond the width as the width.
pub open spec fn clamp_cursor(x: int, width: int) -> int {
    if x < 0 {
        0
    } else if x > width {
        width
    } else {
        x
    }
}

/// `n / d` rounded to the nearest integer, halves away from zero.
pub open spec fn div_round(n: int, d: int) -> int {
    let q = (2 * vstd::math::abs(n) + vstd::math::abs(d)) as int / (2 * vstd::math::abs(d)) as int;
    if (n >= 0) == (d > 0) {
        q
    } else {
        -q
    }
}

/// Lever reading for a cursor at `x` on a screen `width` wide: the clamped
/// position normalised to `[0, 1]`, rescaled as `round(norm * 65536 - 32767)`
/// and narrowed to 16 bits.  A screen of zero width reads as centre.
pub open spec fn mouse_lever(x: int, width: int) -> i16 {
    if width == 0 {
        0
    } else {
        wrap_i16(div_round(clamp_cursor(x, width) * 65536 - 32767 * width, width))
    }
}

/// The model of the mouse driver's state: its last lever reading.
pub struct MouseView {
    pub lever: i16,
}

/// Mouse driver.
#[derive(Debug, Default)]
pub struct MouseIO {
    lever: i16,
}

impl View for MouseIO {
    type V = MouseView;

    closed spec fn view(&self) -> MouseView {
        MouseView { lever: self.lever }
    }
}

impl MouseIO {
    /// A mouse driver reading centre.
    pub fn new() -> (r: Self)
        ensures
            r@ == (MouseView { lever: 0 }),
    {
        MouseIO { lever: 0 }
    }

    /// Take the cursor's horizontal position and the current screen width.
    pub fn poll(&mut self, cursor_x: i32, screen_width: i32)
        ensures
            final(self)@ == (MouseView { lever: mouse_lever(cursor_x as int, screen_width as int) }),
    {
        if screen_width == 0 {
            self.lever = 0;
            return;
        }
        let width: i64 = screen_width as i64;
        let x: i64 = if cursor_x < 0 {
            0
        } else if cursor_x > screen_width {
            width
        } else {
            cursor_x as i64
        };
        let num: i64 = x * 65536 - 32767 * width;
        let num_mag: u64 = if num < 0 {
            (0 - num) as u64
        } else {
            num as u64
        };
        let den_mag: u64 = if width < 0 {
            (0 - width) as u64
        } else {
            width as u64
        };
        assert(num_mag <= 32769 * den_mag);
        let q: u64 = (2 * num_mag + den_mag) / (2 * den_mag);
        assert(q <= 32769) by (nonlinear_arith)
            requires
                q == (2 * num_mag + den_mag) / (2 * den_mag),
                num_mag <= 32769 * den_mag,
                den_mag > 0,
        ;
        let rounded: i64 = if (num >= 0) == (width > 0) {
            q as i64
        } else {
            0 - q as i64
        };
        self.lever = narrow_i16(rounded);
    }

    pub fn lever(&self) -> (r: i16)
        ensures
            r == self@.lever,
    {
        self.lever
    }
}

} // verus!
