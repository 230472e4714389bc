//! The drivers and the registry that dispatches on their capabilities.
use vstd::prelude::*;

pub mod hid;
pub mod keyboard;
pub mod led_debug;
pub mod mouse;

use crate::config::{Config, HIDConfig};
use crate::led::LedColor;

use self::hid::{after_poll, hid_color_light, hid_legacy_light, poll_action, HidAction, HidIO, HidLight, HidLightView, HidRead, HidView};
use self::keyboard::{keyboard_after_poll, watched_keys_of, KeyBoardIO, KeyboardView};
use self::led_debug::LEDebug;
use self::mouse::{mouse_lever, MouseIO, MouseView};

verus! {

/// The optional contracts a driver may exhibit.
#[derive(Debug, Copy, Clone, PartialEq, Eq, Structural)]
pub enum Capability {
    /// Refreshes its state when polled.
    Poll,
    /// Reports operator, left and right button masks.
    Buttons,
    /// Reports a lever reading.
    Lever,
    /// Accepts light frames.
    Light,
}

/// The three button masks a button source reports.
#[derive(Debug, Copy, Clone, PartialEq, Eq, Structural)]
pub enum ButtonGroup {
    Operator,
    Left,
    Right,
}

/// One driver of the registry.
pub enum Driver {
    Keyboard(KeyBoardIO),
    Mouse(MouseIO),
    LedDebug(LEDebug),
    Hid(HidIO),
}

/// The model of a [`Driver`].
pub enum DriverView {
    Keyboard(KeyboardView),
    Mouse(MouseView),
    LedDebug,
    Hid(HidView),
}

impl View for Driver {
    type V = DriverView;

    open spec fn view(&self) -> DriverView {
        match self {
            Driver::Keyboard(k) => DriverView::Keyboard(k@),
            Driver::Mouse(m) => DriverView::Mouse(m@),
            Driver::LedDebug(_) => DriverView::LedDebug,
            Driver::Hid(h) => DriverView::Hid(h@),
        }
    }
}

/// Which capabilities each kind of driver exhibits; fixed by its kind.
pub open spec fn has_capability(d: DriverView, cap: Capability) -> bool {
    match cap {
        Capability::Poll => !(d is LedDebug),
        Capability::Buttons => d is Keyboard || d is Hid,
        Capability::Lever => d is Mouse || d is Hid,
        Capability::Light => d is LedDebug || d is Hid,
    }
}

/// A driver's mask for `group`, when it is a button source.
pub open spec fn buttons_of(d: DriverView, group: ButtonGroup) -> Option<u8> {
    match d {
        DriverView::Keyboard(k) => Some(
            match group {
                ButtonGroup::Operator => k.op_btns,
                ButtonGroup::Left => k.left_btns,
                ButtonGroup::Right => k.right_btns,
            },
        ),
        DriverView::Hid(h) => Some(
            match group {
                ButtonGroup::Operator => 0u8,
                ButtonGroup::Left => h.left_btns,
                ButtonGroup::Right => h.right_btns,
            },
        ),
        _ => None,
    }
}

/// A driver's lever reading, when it is a lever source.
pub open spec fn lever_of(d: DriverView) -> Option<i16> {
    match d {
        DriverView::Mouse(m) => Some(m.lever),
        DriverView::Hid(h) => Some(h.lever),
        _ => None,
    }
}

/// `acc` with the mask of one driver added, if it has one.
pub open spec fn add_mask(acc: u8, mask: Option<u8>) -> u8 {
    match mask {
        Some(m) => acc | m,
        None => acc,
    }
}

/// Bitwise OR of the `group` masks of every button source in `ds`; 0 when
/// there is none.
pub open spec fn aggregate_buttons(ds: Seq<DriverView>, group: ButtonGroup) -> u8
    decreases ds.len(),
{
    if ds.len() == 0 {
        0
    } else {
        add_mask(aggregate_buttons(ds.drop_last(), group), buttons_of(ds.last(), group))
    }
}

/// Reading of the first lever source in `ds`, if any.
pub open spec fn first_lever(ds: Seq<DriverView>) -> Option<i16>
    decreases ds.len(),
{
    if ds.len() == 0 {
        None
    } else if lever_of(ds[0]) is Some {
        lever_of(ds[0])
    } else {
        first_lever(ds.drop_first())
    }
}

proof fn lemma_or_swap(x: u8, y: u8, z: u8)
    ensures
        (x | y) | z == (x | z) | y,
{
    assert((x | y) | z == (x | z) | y) by (bit_vector);
}

proof fn lemma_add_mask_swap(acc: u8, m1: Option<u8>, m2: Option<u8>)
    ensures
        add_mask(add_mask(acc, m1), m2) == add_mask(add_mask(acc, m2), m1),
{
    if let Some(a) = m1 {
        if let Some(b) = m2 {
            lemma_or_swap(acc, a, b);
        }
    }
}

/// Taking any one driver out and adding its mask last gives the same result.
proof fn lemma_aggregate_remove(ds: Seq<DriverView>, j: int, group: ButtonGroup)
    requires
        0 <= j < ds.len(),
    ensures
        aggregate_buttons(ds, group) == add_mask(aggregate_buttons(ds.remove(j), group), buttons_of(ds[j], group)),
    decreases ds.len(),
{
    let n = ds.len() - 1;
    if j == n {
        assert(ds.remove(j) =~= ds.drop_last());
    } else {
        let rest = ds.drop_last();
        lemma_aggregate_remove(rest, j, group);
        assert(ds.remove(j).drop_last() =~= rest.remove(j));
        assert(ds.remove(j).last() == ds.last());
        lemma_add_mask_swap(
            aggregate_buttons(rest.remove(j), group),
            buttons_of(ds[j], group),
            buttons_of(ds.last(), group),
        );
    }
}

/// The aggregated masks do not depend on the order in which the drivers
/// were registered: any rearrangement of the same drivers gives the same
/// operator, left and right masks.
pub proof fn lemma_buttons_order_free(a: Seq<DriverView>, b: Seq<DriverView>, group: ButtonGroup)
    requires
        a.to_multiset() == b.to_multiset(),
    ensures
        aggregate_buttons(a, group) == aggregate_buttons(b, group),
    decreases a.len(),
{
    broadcast use vstd::seq_lib::group_to_multiset_ensures;

    if a.len() == 0 {
        assert(b.to_multiset().len() == 0);
        assert(b.len() == 0);
    } else {
        let x = a.last();
        let rest = a.drop_last();
        assert(a =~= rest.push(x));
        assert(a.to_multiset() =~= rest.to_multiset().insert(x));
        assert(b.to_multiset().count(x) > 0);
        assert(b.contains(x));
        let j = choose|j: int| 0 <= j < b.len() && b[j] == x;
        assert(b.remove(j).to_multiset() =~= b.to_multiset().remove(x));
        assert(rest.to_multiset() =~= b.remove(j).to_multiset());
        lemma_buttons_order_free(rest, b.remove(j), group);
        lemma_aggregate_remove(b, j, group);
    }
}

/// With no lever source among the drivers there is no reading, and only then.
proof fn lemma_first_lever_none(ds: Seq<DriverView>)
    ensures
        first_lever(ds) is None <==> (forall|i: int| 0 <= i < ds.len() ==> #[trigger] lever_of(ds[i]) is None),
    decreases ds.len(),
{
    if ds.len() > 0 {
        let tail = ds.drop_first();
        lemma_first_lever_none(tail);
        if first_lever(ds) is None {
            assert forall|i: int| 0 <= i < ds.len() implies #[trigger] lever_of(ds[i]) is None by {
                if i > 0 {
                    assert(tail[i - 1] == ds[i]);
                }
            }
        } else {
            if lever_of(ds[0]) is None {
                let k = choose|k: int| 0 <= k < tail.len() && #[trigger] lever_of(tail[k]) is Some;
                assert(tail[k] == ds[k + 1]);
            }
        }
    }
}

/// The lever reading the registry reports comes from the earliest
/// registered lever source: whatever stands after it, and whatever
/// position it holds, it is the one selected.
pub proof fn lemma_first_lever_wins(ds: Seq<DriverView>, i: int)
    requires
        0 <= i < ds.len(),
        lever_of(ds[i]) is Some,
        forall|j: int| 0 <= j < i ==> #[trigger] lever_of(ds[j]) is None,
    ensures
        first_lever(ds) == lever_of(ds[i]),
    decreases i,
{
    if i > 0 {
        let tail = ds.drop_first();
        assert(lever_of(ds[0]) is None);
        assert(tail[i - 1] == ds[i]);
        assert forall|j: int| 0 <= j < i - 1 implies #[trigger] lever_of(tail[j]) is None by {
            assert(tail[j] == ds[j + 1]);
        }
        lemma_first_lever_wins(tail, i - 1);
    }
}

/// Read for the driver at position `i`: a position without a read counts as
/// no device.
pub open spec fn read_at(reads: Seq<HidRead>, i: int) -> HidRead {
    if 0 <= i < reads.len() {
        reads[i]
    } else {
        HidRead::Absent
    }
}

/// Whether the driver at position `i` has a connected device.
pub open spec fn linked_at(linked: Seq<bool>, i: int) -> bool {
    0 <= i < linked.len() && linked[i]
}

/// What the outside world looked like at one poll.
pub struct PollInput {
    /// Key codes held down.
    pub pressed_keys: Vec<i32>,
    /// Horizontal cursor position.
    pub cursor_x: i32,
    /// Current screen width.
    pub screen_width: i32,
    /// What was read from the device of each position, by driver position.
    pub hid_reads: Vec<HidRead>,
}

/// A driver after one poll with `input`, at registry position `i`.
pub open spec fn driver_after_poll(d: DriverView, input: PollInput, i: int) -> DriverView {
    match d {
        DriverView::Keyboard(k) => DriverView::Keyboard(keyboard_after_poll(k, input.pressed_keys@)),
        DriverView::Mouse(_) => DriverView::Mouse(
            MouseView { lever: mouse_lever(input.cursor_x as int, input.screen_width as int) },
        ),
        DriverView::LedDebug => DriverView::LedDebug,
        DriverView::Hid(h) => DriverView::Hid(after_poll(h, read_at(input.hid_reads@, i))),
    }
}

/// What the owner of the device at position `i` must do after a poll.
pub open spec fn driver_poll_action(d: DriverView, input: PollInput, i: int) -> HidAction {
    if d is Hid {
        poll_action(read_at(input.hid_reads@, i))
    } else {
        HidAction::Keep
    }
}

/// An instruction to the owner of the displays and devices.
pub enum LightOp {
    /// Show these eighteen brightness values (debug sink, legacy frame).
    ShowLevels(Vec<u8>),
    /// Show these colours for this board (debug sink, colour frame).
    ShowColors(u8, Vec<LedColor>),
    /// Write this report to the device of the driver at this position.
    Write(usize, Vec<u8>),
    /// Connect the device of the driver at this position.
    Reconnect(usize),
}

/// The model of a [`LightOp`].
pub enum LightOpView {
    ShowLevels(Seq<u8>),
    ShowColors(u8, Seq<LedColor>),
    Write(usize, Seq<u8>),
    Reconnect(usize),
}

impl View for LightOp {
    type V = LightOpView;

    open spec fn view(&self) -> LightOpView {
        match self {
            LightOp::ShowLevels(v) => LightOpView::ShowLevels(v@),
            LightOp::ShowColors(b, c) => LightOpView::ShowColors(*b, c@),
            LightOp::Write(i, r) => LightOpView::Write(*i, r@),
            LightOp::Reconnect(i) => LightOpView::Reconnect(*i),
        }
    }
}

/// The HID board's answer as instructions for position `i`.
pub open spec fn hid_ops(light: HidLightView, i: int) -> Seq<LightOpView> {
    match light {
        HidLightView::Write(r) => seq![LightOpView::Write(i as usize, r)],
        HidLightView::Reconnect => seq![LightOpView::Reconnect(i as usize)],
        HidLightView::Ignore => seq![],
    }
}

/// Instructions for a legacy mask from the driver at position `i`.
pub open spec fn legacy_ops_of(d: DriverView, i: int, mask: u32, linked: Seq<bool>) -> Seq<LightOpView> {
    match d {
        DriverView::LedDebug => seq![LightOpView::ShowLevels(crate::led::legacy_levels_of(mask))],
        DriverView::Hid(_) => hid_ops(hid_legacy_light(mask, linked_at(linked, i)), i),
        _ => seq![],
    }
}

/// Instructions for a legacy mask from the first `n` drivers, in order.
pub open spec fn legacy_ops(ds: Seq<DriverView>, n: int, mask: u32, linked: Seq<bool>) -> Seq<LightOpView>
    decreases n,
{
    if n <= 0 {
        seq![]
    } else {
        legacy_ops(ds, n - 1, mask, linked) + legacy_ops_of(ds[n - 1], n - 1, mask, linked)
    }
}

/// Instructions for a colour frame from the driver at position `i`.
pub open spec fn color_ops_of(
    d: DriverView,
    i: int,
    board: u8,
    colors: Seq<LedColor>,
    linked: Seq<bool>,
) -> Seq<LightOpView> {
    match d {
        DriverView::LedDebug => seq![LightOpView::ShowColors(board, colors)],
        DriverView::Hid(_) => hid_ops(hid_color_light(board, colors, linked_at(linked, i)), i),
        _ => seq![],
    }
}

/// Instructions for a colour frame from the first `n` drivers, in order.
pub open spec fn color_ops(
    ds: Seq<DriverView>,
    n: int,
    board: u8,
    colors: Seq<LedColor>,
    linked: Seq<bool>,
) -> Seq<LightOpView>
    decreases n,
{
    if n <= 0 {
        seq![]
    } else {
        color_ops(ds, n - 1, board, colors, linked) + color_ops_of(ds[n - 1], n - 1, board, colors, linked)
    }
}

/// The drivers a configuration enables, in the order keyboard, mouse, LED
/// debug sink, HID board.
pub open spec fn configured_drivers(c: Config) -> Seq<DriverView> {
    (if c.keyboard.enabled {
        seq![DriverView::Keyboard(KeyboardView { op_btns: 0, left_btns: 0, right_btns: 0, config: c.keyboard })]
    } else {
        seq![]
    }) + (if c.mouse.enabled {
        seq![DriverView::Mouse(MouseView { lever: 0 })]
    } else {
        seq![]
    }) + (if c.led_debug.enabled {
        seq![DriverView::LedDebug]
    } else {
        seq![]
    }) + (if c.hid.enabled {
        seq![DriverView::Hid(HidView { lever: 0, left_btns: 0, right_btns: 0, config: c.hid })]
    } else {
        seq![]
    })
}

/// The keys every keyboard of `ds` reads, in registry order.
pub open spec fn watched_keys(ds: Seq<DriverView>) -> Seq<i32>
    decreases ds.len(),
{
    if ds.len() == 0 {
        seq![]
    } else {
        watched_keys(ds.drop_last()) + match ds.last() {
            DriverView::Keyboard(k) => watched_keys_of(k.config),
            _ => seq![],
        }
    }
}

impl Driver {
    /// Whether this driver exhibits `cap`.
    pub fn supports(&self, cap: Capability) -> (r: bool)
        ensures
            r == has_capability(self@, cap),
    {
        match cap {
            Capability::Poll => !matches!(self, Driver::LedDebug(_)),
            Capability::Buttons => matches!(self, Driver::Keyboard(_) | Driver::Hid(_)),
            Capability::Lever => matches!(self, Driver::Mouse(_) | Driver::Hid(_)),
            Capability::Light => matches!(self, Driver::LedDebug(_) | Driver::Hid(_)),
        }
    }

    /// The mask for `group`, when this driver is a button source.
    pub fn buttons(&self, group: ButtonGroup) -> (r: Option<u8>)
        ensures
            r == buttons_of(self@, group),
            r is Some <==> has_capability(self@, Capability::Buttons),
    {
        match self {
            Driver::Keyboard(k) => Some(
                match group {
                    ButtonGroup::Operator => k.op_btns(),
                    ButtonGroup::Left => k.left_btns(),
                    ButtonGroup::Right => k.right_btns(),
                },
            ),
            Driver::Hid(h) => Some(
                match group {
                    ButtonGroup::Operator => h.op_btns(),
                    ButtonGroup::Left => h.left_btns(),
                    ButtonGroup::Right => h.right_btns(),
                },
            ),
            _ => None,
        }
    }

    /// Poll this driver, at registry position `i`, with `input`; `read` is
    /// what was read from the device of that position.
    pub fn poll(&mut self, input: &PollInput, read: HidRead) -> (r: HidAction)
        ensures
            final(self)@ == (match old(self)@ {
                DriverView::Keyboard(k) => DriverView::Keyboard(keyboard_after_poll(k, input.pressed_keys@)),
                DriverView::Mouse(_) => DriverView::Mouse(
                    MouseView { lever: mouse_lever(input.cursor_x as int, input.screen_width as int) },
                ),
                DriverView::LedDebug => DriverView::LedDebug,
                DriverView::Hid(h) => DriverView::Hid(after_poll(h, read)),
            }),
            r == (if old(self)@ is Hid {
                poll_action(read)
            } else {
                HidAction::Keep
            }),
    {
        match self {
            Driver::Keyboard(k) => {
                k.poll(&input.pressed_keys);
                HidAction::Keep
            },
            Driver::Mouse(m) => {
                m.poll(input.cursor_x, input.screen_width);
                HidAction::Keep
            },
            Driver::LedDebug(_) => HidAction::Keep,
            Driver::Hid(h) => h.poll(read),
        }
    }

    /// The lever reading, when this driver is a lever source.
    pub fn lever(&self) -> (r: Option<i16>)
        ensures
            r == lever_of(self@),
            r is Some <==> has_capability(self@, Capability::Lever),
    {
        match self {
            Driver::Mouse(m) => Some(m.lever()),
            Driver::Hid(h) => Some(h.lever()),
            _ => None,
        }
    }
}

/// The registry: every driver, in registration order.
pub struct Drivers {
    drivers: Vec<Driver>,
}

impl View for Drivers {
    type V = Seq<DriverView>;

    closed spec fn view(&self) -> Seq<DriverView> {
        self.drivers@.map_values(|d: Driver| d@)
    }
}

impl Drivers {
    /// An empty registry.
    pub fn new() -> (r: Self)
        ensures
            r@ == Seq::<DriverView>::empty(),
    {
        Drivers { drivers: Vec::new() }
    }

    /// Append a driver.
    pub fn register(&mut self, driver: Driver)
        ensures
            final(self)@ == old(self)@.push(driver@),
    {
        self.drivers.push(driver);
        assert(self@ =~= old(self)@.push(driver@));
    }

    /// Build the drivers a configuration enables and append them.
    pub fn init(&mut self, config: &Config)
        ensures
            final(self)@ == old(self)@ + configured_drivers(*config),
    {
        let ghost start = self@;
        if config.keyboard.enabled {
            self.register(Driver::Keyboard(KeyBoardIO::new(config.keyboard)));
        }
        if config.mouse.enabled {
            self.register(Driver::Mouse(MouseIO::new()));
        }
        if config.led_debug.enabled {
            self.register(Driver::LedDebug(LEDebug::new()));
        }
        if config.hid.enabled {
            self.register(Driver::Hid(HidIO::new(config.hid)));
        }
        assert(self@ =~= start + configured_drivers(*config));
    }

    /// Number of drivers.
    pub fn len(&self) -> (r: usize)
        ensures
            r == self@.len(),
    {
        self.drivers.len()
    }

    /// The driver at position `i`.
    pub fn get(&self, i: usize) -> (r: &Driver)
        requires
            i < self@.len(),
        ensures
            r@ == self@[i as int],
    {
        &self.drivers[i]
    }

    /// The configuration of the HID board at position `i`, if there is one.
    pub fn hid_config(&self, i: usize) -> (r: Option<HIDConfig>)
        ensures
            r == (if i < self@.len() && self@[i as int] is Hid {
                Some(self@[i as int]->Hid_0.config)
            } else {
                None
            }),
    {
        if i < self.drivers.len() {
            match &self.drivers[i] {
                Driver::Hid(h) => Some(h.config()),
                _ => None,
            }
        } else {
            None
        }
    }

    /// Whether any driver reads the cursor.
    pub fn reads_cursor(&self) -> (r: bool)
        ensures
            r == exists|i: int| 0 <= i < self@.len() && #[trigger] self@[i] is Mouse,
    {
        let mut i: usize = 0;
        while i < self.drivers.len()
            invariant
                i <= self@.len(),
                self@.len() == self.drivers@.len(),
                forall|k: int| 0 <= k < i ==> !(#[trigger] self@[k] is Mouse),
            decreases self.drivers.len() - i,
        {
            if matches!(&self.drivers[i], Driver::Mouse(_)) {
                assert(self@[i as int] is Mouse);
                return true;
            }
            i = i + 1;
        }
        false
    }

    /// The keys the keyboards read, in registry order.
    pub fn watched_keys(&self) -> (r: Vec<i32>)
        ensures
            r@ == watched_keys(self@),
    {
        let mut keys: Vec<i32> = Vec::new();
        let mut i: usize = 0;
        while i < self.drivers.len()
            invariant
                i <= self@.len(),
                self@.len() == self.drivers@.len(),
                keys@ == watched_keys(self@.take(i as int)),
            decreases self.drivers.len() - i,
        {
            assert(self@.take(i as int + 1).drop_last() =~= self@.take(i as int));
            if let Driver::Keyboard(k) = &self.drivers[i] {
                let mut more = k.watched_keys();
                keys.append(&mut more);
            }
            i = i + 1;
        }
        assert(self@.take(self@.len() as int) =~= self@);
        keys
    }

    /// Bitwise OR of the `group` masks of every button source.
    fn aggregate(&self, group: ButtonGroup) -> (r: u8)
        ensures
            r == aggregate_buttons(self@, group),
    {
        let mut acc: u8 = 0;
        let mut i: usize = 0;
        while i < self.drivers.len()
            invariant
                i <= self@.len(),
                self@.len() == self.drivers@.len(),
                acc == aggregate_buttons(self@.take(i as int), group),
            decreases self.drivers.len() - i,
        {
            assert(self@.take(i as int + 1).drop_last() =~= self@.take(i as int));
            if let Some(m) = self.drivers[i].buttons(group) {
                acc = acc | m;
            }
            i = i + 1;
        }
        assert(self@.take(self@.len() as int) =~= self@);
        acc
    }

    /// Operator buttons held on any button source.
    pub fn op_btns(&self) -> (r: u8)
        ensures
            r == aggregate_buttons(self@, ButtonGroup::Operator),
    {
        self.aggregate(ButtonGroup::Operator)
    }

    /// Left cluster buttons held on any button source.
    pub fn left_btns(&self) -> (r: u8)
        ensures
            r == aggregate_buttons(self@, ButtonGroup::Left),
    {
        self.aggregate(ButtonGroup::Left)
    }

    /// Right cluster buttons held on any button source.
    pub fn right_btns(&self) -> (r: u8)
        ensures
            r == aggregate_buttons(self@, ButtonGroup::Right),
    {
        self.aggregate(ButtonGroup::Right)
    }

    /// The reading of the earliest registered lever source; none without one.
    pub fn lever(&self) -> (r: Option<i16>)
        ensures
            r == first_lever(self@),
            r is None <==> (forall|i: int| 0 <= i < self@.len() ==> #[trigger] lever_of(self@[i]) is None),
            forall|i: int|
                0 <= i < self@.len() && #[trigger] lever_of(self@[i]) is Some && (forall|j: int|
                    0 <= j < i ==> lever_of(self@[j]) is None) ==> r == lever_of(self@[i]),
    {
        proof {
            lemma_first_lever_none(self@);
            assert forall|i: int|
                0 <= i < self@.len() && #[trigger] lever_of(self@[i]) is Some && (forall|j: int|
                    0 <= j < i ==> lever_of(self@[j]) is None) implies first_lever(self@) == lever_of(self@[i]) by {
                lemma_first_lever_wins(self@, i);
            }
            assert(self@.skip(0) =~= self@);
        }
        let mut i: usize = 0;
        while i < self.drivers.len()
            invariant
                i <= self@.len(),
                self@.len() == self.drivers@.len(),
                first_lever(self@) == first_lever(self@.skip(i as int)),
                forall|k: int|
                    0 <= k < self@.len() && #[trigger] lever_of(self@[k]) is Some && (forall|j: int|
                        0 <= j < k ==> lever_of(self@[j]) is None) ==> first_lever(self@) == lever_of(self@[k]),
            decreases self.drivers.len() - i,
        {
            assert(self@.skip(i as int)[0] == self@[i as int]);
            let reading = self.drivers[i].lever();
            if reading.is_some() {
                return reading;
            }
            assert(self@.skip(i as int).drop_first() =~= self@.skip(i as int + 1));
            i = i + 1;
        }
        None
    }

    /// Poll every pollable driver in registration order.  The result holds,
    /// by position, what the owner of each device must do next.
    pub fn poll(&mut self, input: &PollInput) -> (r: Vec<HidAction>)
        ensures
            final(self)@.len() == old(self)@.len(),
            forall|i: int|
                0 <= i < old(self)@.len() ==> #[trigger] final(self)@[i] == driver_after_poll(
                    old(self)@[i],
                    *input,
                    i,
                ),
            r@.len() == old(self)@.len(),
            forall|i: int| 0 <= i < old(self)@.len() ==> #[trigger] r@[i] == driver_poll_action(old(self)@[i], *input, i),
    {
        let ghost before = self@;
        let mut actions: Vec<HidAction> = Vec::new();
        let mut i: usize = 0;
        while i < self.drivers.len()
            invariant
                i <= self@.len(),
                self@.len() == self.drivers@.len(),
                self@.len() == before.len(),
                forall|k: int| 0 <= k < i ==> #[trigger] self@[k] == driver_after_poll(before[k], *input, k),
                forall|k: int| i <= k < before.len() ==> #[trigger] self@[k] == before[k],
                actions@.len() == i,
                forall|k: int| 0 <= k < i ==> #[trigger] actions@[k] == driver_poll_action(before[k], *input, k),
            decreases self.drivers.len() - i,
        {
            let read = if i < input.hid_reads.len() {
                input.hid_reads[i]
            } else {
                HidRead::Absent
            };
            let ghost prev = self.drivers@;
            let ghost prev_view = self@;
            assert(prev_view[i as int] == before[i as int]);
            assert(prev_view[i as int] == prev[i as int]@);
            let action = self.drivers[i].poll(input, read);
            proof {
                assert(self.drivers@ =~= prev.update(i as int, self.drivers@[i as int]));
                assert(self@ =~= prev_view.update(i as int, self.drivers@[i as int]@));
            }
            actions.push(action);
            i = i + 1;
        }
        actions
    }

    /// Hand a legacy mask to every light sink in registration order.
    pub fn set_led(&self, data: u32, linked: &Vec<bool>) -> (r: Vec<LightOp>)
        ensures
            r@.map_values(|op: LightOp| op@) == legacy_ops(self@, self@.len() as int, data, linked@),
    {
        let mut ops: Vec<LightOp> = Vec::new();
        let mut i: usize = 0;
        while i < self.drivers.len()
            invariant
                i <= self@.len(),
                self@.len() == self.drivers@.len(),
                ops@.map_values(|op: LightOp| op@) == legacy_ops(self@, i as int, data, linked@),
            decreases self.drivers.len() - i,
        {
            let ghost prev = ops@.map_values(|op: LightOp| op@);
            let is_linked = i < linked.len() && linked[i];
            match &self.drivers[i] {
                Driver::LedDebug(l) => {
                    ops.push(LightOp::ShowLevels(l.set_led(data)));
                },
                Driver::Hid(h) => {
                    match h.set_led(data, is_linked) {
                        HidLight::Write(report) => ops.push(LightOp::Write(i, report)),
                        HidLight::Reconnect => ops.push(LightOp::Reconnect(i)),
                        HidLight::Ignore => {},
                    }
                },
                _ => {},
            }
            assert(ops@.map_values(|op: LightOp| op@) =~= prev + legacy_ops_of(self@[i as int], i as int, data, linked@));
            i = i + 1;
        }
        ops
    }

    /// Hand a colour frame for `board` to every light sink in registration
    /// order.
    pub fn set_led_new(&self, board: u8, colors: &Vec<LedColor>, linked: &Vec<bool>) -> (r: Vec<LightOp>)
        ensures
            r@.map_values(|op: LightOp| op@) == color_ops(self@, self@.len() as int, board, colors@, linked@),
    {
        let mut ops: Vec<LightOp> = Vec::new();
        let mut i: usize = 0;
        while i < self.drivers.len()
            invariant
                i <= self@.len(),
                self@.len() == self.drivers@.len(),
                ops@.map_values(|op: LightOp| op@) == color_ops(self@, i as int, board, colors@, linked@),
            decreases self.drivers.len() - i,
        {
            let ghost prev = ops@.map_values(|op: LightOp| op@);
            let is_linked = i < linked.len() && linked[i];
            match &self.drivers[i] {
                Driver::LedDebug(_) => {
                    ops.push(LightOp::ShowColors(board, copy_colors(colors)));
                },
                Driver::Hid(h) => {
                    match h.set_led_new(board, colors, is_linked) {
                        HidLight::Write(report) => ops.push(LightOp::Write(i, report)),
                        HidLight::Reconnect => ops.push(LightOp::Reconnect(i)),
                        HidLight::Ignore => {},
                    }
                },
                _ => {},
            }
            assert(ops@.map_values(|op: LightOp| op@) =~= prev + color_ops_of(
                self@[i as int],
                i as int,
                board,
                colors@,
                linked@,
            ));
            i = i + 1;
        }
        ops
    }
}

/// A copy of a colour list.
fn copy_colors(colors: &Vec<LedColor>) -> (r: Vec<LedColor>)
    ensures
        r@ == colors@,
{
    let mut out: Vec<LedColor> = Vec::new();
    let mut i: usize = 0;
    while i < colors.len()
        invariant
            i <= colors.len(),
            out@ == colors@.take(i as int),
        decreases colors.len() - i,
    {
        out.push(colors[i]);
        i = i + 1;
    }
    out
}

} // verus!
