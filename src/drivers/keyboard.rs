//! Keyboard driver: button masks derived from the keys held down.
use vstd::prelude::*;

use crate::config::KeyBoardConfig;
use crate::enums::{GameBtn, OpBtn};

verus! {

/// Key code of `A` (left button 1).
pub const KEY_A: i32 = 0x41;

/// Key code of `S` (left button 2).
pub const KEY_S: i32 = 0x53;

/// Key code of `D` (left button 3).
pub const KEY_D: i32 = 0x44;

/// Key code of `U` (left menu).
pub const KEY_U: i32 = 0x55;

/// Key code of the left mouse button (left side button).
pub const KEY_LBUTTON: i32 = 0x01;

/// Key code of `J` (right button 1).
pub const KEY_J: i32 = 0x4A;

/// Key code of `K` (right button 2).
pub const KEY_K: i32 = 0x4B;

/// Key code of `L` (right button 3).
pub const KEY_L: i32 = 0x4C;

/// Key code of `O` (right menu).
pub const KEY_O: i32 = 0x4F;

/// Key code of the right mouse button (right side button).
pub const KEY_RBUTTON: i32 = 0x02;

/// `bit` when `key` is among the keys held down, otherwise nothing.
pub open spec fn key_bit(pressed: Seq<i32>, key: i32, bit: u8) -> u8 {
    if pressed.contains(key) {
        bit
    } else {
        0
    }
}

/// Operator mask for the configured test, service and coin keys.
pub open spec fn op_mask(config: KeyBoardConfig, pressed: Seq<i32>) -> u8 {
    key_bit(pressed, config.test, OpBtn::Test.spec_bit()) | key_bit(
        pressed,
        config.service,
        OpBtn::Service.spec_bit(),
    ) | key_bit(pressed, config.coin, OpBtn::Coin.spec_bit())
}

/// Left cluster mask.
pub open spec fn left_mask(pressed: Seq<i32>) -> u8 {
    key_bit(pressed, KEY_A, GameBtn::Btn1.spec_bit()) | key_bit(pressed, KEY_S, GameBtn::Btn2.spec_bit())
        | key_bit(pressed, KEY_D, GameBtn::Btn3.spec_bit()) | key_bit(
        pressed,
        KEY_LBUTTON,
        GameBtn::Side.spec_bit(),
    ) | key_bit(pressed, KEY_U, GameBtn::Menu.spec_bit())
}

/// Right cluster mask.
pub open spec fn right_mask(pressed: Seq<i32>) -> u8 {
    key_bit(pressed, KEY_J, GameBtn::Btn1.spec_bit()) | key_bit(pressed, KEY_K, GameBtn::Btn2.spec_bit())
        | key_bit(pressed, KEY_L, GameBtn::Btn3.spec_bit()) | key_bit(
        pressed,
        KEY_RBUTTON,
        GameBtn::Side.spec_bit(),
    ) | key_bit(pressed, KEY_O, GameBtn::Menu.spec_bit())
}

/// Every key the driver reads: the operator keys, then the left and the
/// right cluster.
pub open spec fn watched_keys_of(config: KeyBoardConfig) -> Seq<i32> {
    seq![
        config.test,
        config.service,
        config.coin,
        KEY_A,
        KEY_S,
        KEY_D,
        KEY_LBUTTON,
        KEY_U,
        KEY_J,
        KEY_K,
        KEY_L,
        KEY_RBUTTON,
        KEY_O,
    ]
}

/// The model of the keyboard driver's state.
pub struct KeyboardView {
    pub op_btns: u8,
    pub left_btns: u8,
    pub right_btns: u8,
    pub config: KeyBoardConfig,
}

/// State after a poll with the given keys held down: every mask is derived
/// afresh, nothing is kept from the previous state but the configuration.
pub open spec fn keyboard_after_poll(s: KeyboardView, pressed: Seq<i32>) -> KeyboardView {
    KeyboardView {
        op_btns: op_mask(s.config, pressed),
        left_btns: left_mask(pressed),
        right_btns: right_mask(pressed),
        config: s.config,
    }
}

/// Keyboard driver.
#[derive(Debug)]
pub struct KeyBoardIO {
    op_btns: u8,
    left_btns: u8,
    right_btns: u8,
    config: KeyBoardConfig,
}

impl View for KeyBoardIO {
    type V = KeyboardView;

    closed spec fn view(&self) -> KeyboardView {
        KeyboardView {
            op_btns: self.op_btns,
            left_btns: self.left_btns,
            right_btns: self.right_btns,
            config: self.config,
        }
    }
}

/// Whether `key` is among the keys held down.
pub fn is_key_pressed(pressed: &Vec<i32>, key: i32) -> (r: bool)
    ensures
        r == pressed@.contains(key),
{
    let mut i: usize = 0;
    while i < pressed.len()
        invariant
            i <= pressed.len(),
            forall|k: int| 0 <= k < i ==> pressed@[k] != key,
        decreases pressed.len() - i,
    {
        if pressed[i] == key {
            return true;
        }
        i = i + 1;
    }
    false
}

/// `bit` when `key` is held down, otherwise nothing.
fn key_bit_of(pressed: &Vec<i32>, key: i32, bit: u8) -> (r: u8)
    ensures
        r == key_bit(pressed@, key, bit),
{
    if is_key_pressed(pressed, key) {
        bit
    } else {
        0
    }
}

impl KeyBoardIO {
    /// A keyboard driver with no button held.
    pub fn new(config: KeyBoardConfig) -> (r: Self)
        ensures
            r@ == (KeyboardView { op_btns: 0, left_btns: 0, right_btns: 0, config }),
    {
        KeyBoardIO { op_btns: 0, left_btns: 0, right_btns: 0, config }
    }

    /// The keys whose state a poll needs.
    pub fn watched_keys(&self) -> (r: Vec<i32>)
        ensures
            r@ == watched_keys_of(self@.config),
    {
        vec![
            self.config.test,
            self.config.service,
            self.config.coin,
            KEY_A,
            KEY_S,
            KEY_D,
            KEY_LBUTTON,
            KEY_U,
            KEY_J,
            KEY_K,
            KEY_L,
            KEY_RBUTTON,
            KEY_O,
        ]
    }

    /// Derive all three masks from the keys currently held down.
    pub fn poll(&mut self, pressed: &Vec<i32>)
        ensures
            final(self)@ == keyboard_after_poll(old(self)@, pressed@),
    {
        self.op_btns = key_bit_of(pressed, self.config.test, OpBtn::Test.bit()) | key_bit_of(
            pressed,
            self.config.service,
            OpBtn::Service.bit(),
        ) | key_bit_of(pressed, self.config.coin, OpBtn::Coin.bit());
        self.left_btns = key_bit_of(pressed, KEY_A, GameBtn::Btn1.bit()) | key_bit_of(
            pressed,
            KEY_S,
            GameBtn::Btn2.bit(),
        ) | key_bit_of(pressed, KEY_D, GameBtn::Btn3.bit()) | key_bit_of(
            pressed,
            KEY_LBUTTON,
            GameBtn::Side.bit(),
        ) | key_bit_of(pressed, KEY_U, GameBtn::Menu.bit());
        self.right_btns = key_bit_of(pressed, KEY_J, GameBtn::Btn1.bit()) | key_bit_of(
            pressed,
            KEY_K,
            GameBtn::Btn2.bit(),
        ) | key_bit_of(pressed, KEY_L, GameBtn::Btn3.bit()) | key_bit_of(
            pressed,
            KEY_RBUTTON,
            GameBtn::Side.bit(),
        ) | key_bit_of(pressed, KEY_O, GameBtn::Menu.bit());
    }

    pub fn op_btns(&self) -> (r: u8)
        ensures
            r == self@.op_btns,
    {
        self.op_btns
    }

    pub fn left_btns(&self) -> (r: u8)
        ensures
            r == self@.left_btns,
    {
        self.left_btns
    }

    pub fn right_btns(&self) -> (r: u8)
        ensures
            r == self@.right_btns,
    {
        self.right_btns
    }
}

} // verus!
