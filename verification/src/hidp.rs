//! HID over GATT for Bluetooth LE gamepads: the HID service UUIDs, the
//! gamepad state model, the recognition of known controllers by name, the
//! decoding of their input reports, and the lookup of the HID handles
//! among discovered GATT attributes.

use vstd::prelude::*;
use vstd::string::StrSliceExecFns;
use crate::types::{BtUuid, uuid16_bytes};
use crate::bytes::{u16_le, read_u16_le};
use crate::gatt::{GattService, GattCharacteristic};

verus! {

// ============================================================================
// HID over GATT UUIDs
// ============================================================================

/// HID Service (0x1812).
pub fn hid_service_uuid() -> (r: BtUuid)
    ensures
        r.bytes@ == uuid16_bytes(0x1812),
{
    BtUuid::from_uuid16(0x1812)
}

/// HID Information characteristic (0x2A4A).
pub fn hid_information_uuid() -> (r: BtUuid)
    ensures
        r.bytes@ == uuid16_bytes(0x2A4A),
{
    BtUuid::from_uuid16(0x2A4A)
}

/// Report Map characteristic (0x2A4B).
pub fn report_map_uuid() -> (r: BtUuid)
    ensures
        r.bytes@ == uuid16_bytes(0x2A4B),
{
    BtUuid::from_uuid16(0x2A4B)
}

/// Report characteristic (0x2A4D): input, output or feature.
pub fn report_uuid() -> (r: BtUuid)
    ensures
        r.bytes@ == uuid16_bytes(0x2A4D),
{
    BtUuid::from_uuid16(0x2A4D)
}

/// Protocol Mode characteristic (0x2A4E).
pub fn protocol_mode_uuid() -> (r: BtUuid)
    ensures
        r.bytes@ == uuid16_bytes(0x2A4E),
{
    BtUuid::from_uuid16(0x2A4E)
}

/// HID Control Point characteristic (0x2A4C).
pub fn hid_control_point_uuid() -> (r: BtUuid)
    ensures
        r.bytes@ == uuid16_bytes(0x2A4C),
{
    BtUuid::from_uuid16(0x2A4C)
}

/// Report Reference descriptor (0x2908).
pub fn report_reference_uuid() -> (r: BtUuid)
    ensures
        r.bytes@ == uuid16_bytes(0x2908),
{
    BtUuid::from_uuid16(0x2908)
}

/// HID Information flag: remote wake.
pub const HID_INFO_FLAG_REMOTE_WAKE: u8 = 0x01;
/// HID Information flag: normally connectable.
pub const HID_INFO_FLAG_NORMALLY_CONNECTABLE: u8 = 0x02;

/// Report Reference type: input.
pub const REPORT_TYPE_INPUT: u8 = 0x01;
/// Report Reference type: output.
pub const REPORT_TYPE_OUTPUT: u8 = 0x02;
/// Report Reference type: feature.
pub const REPORT_TYPE_FEATURE: u8 = 0x03;

/// Protocol Mode: report protocol.
pub const PROTOCOL_MODE_REPORT: u8 = 0x01;
/// Protocol Mode: boot protocol.
pub const PROTOCOL_MODE_BOOT: u8 = 0x00;

// ============================================================================
// Buttons, axes, hat
// ============================================================================

/// Standard gamepad buttons, each a bit of `GamepadState::buttons`.
#[derive(Clone, Copy, PartialEq, Eq, Debug, Structural)]
pub enum GamepadButton {
    A,
    B,
    X,
    Y,
    LeftBumper,
    RightBumper,
    /// Digital L2.
    LeftTrigger,
    /// Digital R2.
    RightTrigger,
    /// Select, Back or minus.
    Select,
    /// Start, Forward or plus.
    Start,
    /// L3.
    LeftStick,
    /// R3.
    RightStick,
    /// PS, Xbox or Home.
    Guide,
    /// Share or Capture.
    Capture,
    DpadUp,
    DpadDown,
    DpadLeft,
    DpadRight,
    Misc,
}

impl GamepadButton {
    /// Bit position of the button, 0 to 18 in declaration order.
    pub open spec fn spec_bit(self) -> u8 {
        match self {
            GamepadButton::A => 0,
            GamepadButton::B => 1,
            GamepadButton::X => 2,
            GamepadButton::Y => 3,
            GamepadButton::LeftBumper => 4,
            GamepadButton::RightBumper => 5,
            GamepadButton::LeftTrigger => 6,
            GamepadButton::RightTrigger => 7,
            GamepadButton::Select => 8,
            GamepadButton::Start => 9,
            GamepadButton::LeftStick => 10,
            GamepadButton::RightStick => 11,
            GamepadButton::Guide => 12,
            GamepadButton::Capture => 13,
            GamepadButton::DpadUp => 14,
            GamepadButton::DpadDown => 15,
            GamepadButton::DpadLeft => 16,
            GamepadButton::DpadRight => 17,
            GamepadButton::Misc => 18,
        }
    }

    /// Bit position of the button.
    pub fn bit(&self) -> (r: u8)
        ensures
            r == self.spec_bit(),
            r < 19,
    {
        match self {
            GamepadButton::A => 0,
            GamepadButton::B => 1,
            GamepadButton::X => 2,
            GamepadButton::Y => 3,
            GamepadButton::LeftBumper => 4,
            GamepadButton::RightBumper => 5,
            GamepadButton::LeftTrigger => 6,
            GamepadButton::RightTrigger => 7,
            GamepadButton::Select => 8,
            GamepadButton::Start => 9,
            GamepadButton::LeftStick => 10,
            GamepadButton::RightStick => 11,
            GamepadButton::Guide => 12,
            GamepadButton::Capture => 13,
            GamepadButton::DpadUp => 14,
            GamepadButton::DpadDown => 15,
            GamepadButton::DpadLeft => 16,
            GamepadButton::DpadRight => 17,
            GamepadButton::Misc => 18,
        }
    }
}

/// Gamepad axes, each an entry of `GamepadState::axes`.
#[derive(Clone, Copy, PartialEq, Eq, Debug, Structural)]
pub enum GamepadAxis {
    LeftStickX,
    LeftStickY,
    RightStickX,
    RightStickY,
    /// Analog L2.
    LeftTrigger,
    /// Analog R2.
    RightTrigger,
    AccelX,
    AccelY,
    AccelZ,
    GyroX,
    GyroY,
    GyroZ,
}

impl GamepadAxis {
    /// Index of the axis, 0 to 11 in declaration order.
    pub open spec fn spec_index(self) -> usize {
        match self {
            GamepadAxis::LeftStickX => 0,
            GamepadAxis::LeftStickY => 1,
            GamepadAxis::RightStickX => 2,
            GamepadAxis::RightStickY => 3,
            GamepadAxis::LeftTrigger => 4,
            GamepadAxis::RightTrigger => 5,
            GamepadAxis::AccelX => 6,
            GamepadAxis::AccelY => 7,
            GamepadAxis::AccelZ => 8,
            GamepadAxis::GyroX => 9,
            GamepadAxis::GyroY => 10,
            GamepadAxis::GyroZ => 11,
        }
    }

    /// Index of the axis.
    pub fn index(&self) -> (r: usize)
        ensures
            r == self.spec_index(),
            r < 12,
    {
        match self {
            GamepadAxis::LeftStickX => 0,
            GamepadAxis::LeftStickY => 1,
            GamepadAxis::RightStickX => 2,
            GamepadAxis::RightStickY => 3,
            GamepadAxis::LeftTrigger => 4,
            GamepadAxis::RightTrigger => 5,
            GamepadAxis::AccelX => 6,
            GamepadAxis::AccelY => 7,
            GamepadAxis::AccelZ => 8,
            GamepadAxis::GyroX => 9,
            GamepadAxis::GyroY => 10,
            GamepadAxis::GyroZ => 11,
        }
    }
}

/// Hat switch position: eight directions or centered.
#[derive(Clone, Copy, PartialEq, Eq, Debug, Structural)]
pub enum HatPosition {
    Center,
    North,
    NorthEast,
    East,
    SouthEast,
    South,
    SouthWest,
    West,
    NorthWest,
}

impl Default for HatPosition {
    fn default() -> (r: Self)
        ensures
            r == HatPosition::Center,
    {
        HatPosition::Center
    }
}

/// The hat position a 4-bit hat value stands for: 0 to 7 clockwise from
/// north, anything else centered.
pub open spec fn hat_of(v: u8) -> HatPosition {
    if v == 0 {
        HatPosition::North
    } else if v == 1 {
        HatPosition::NorthEast
    } else if v == 2 {
        HatPosition::East
    } else if v == 3 {
        HatPosition::SouthEast
    } else if v == 4 {
        HatPosition::South
    } else if v == 5 {
        HatPosition::SouthWest
    } else if v == 6 {
        HatPosition::West
    } else if v == 7 {
        HatPosition::NorthWest
    } else {
        HatPosition::Center
    }
}

impl HatPosition {
    /// The position the low four bits of `v` stand for.
    pub fn from_hat_value(v: u8) -> (r: Self)
        ensures
            r == hat_of(v & 0x0F),
    {
        let n = v & 0x0F;
        if n == 0 {
            HatPosition::North
        } else if n == 1 {
            HatPosition::NorthEast
        } else if n == 2 {
            HatPosition::East
        } else if n == 3 {
            HatPosition::SouthEast
        } else if n == 4 {
            HatPosition::South
        } else if n == 5 {
            HatPosition::SouthWest
        } else if n == 6 {
            HatPosition::West
        } else if n == 7 {
            HatPosition::NorthWest
        } else {
            HatPosition::Center
        }
    }

    /// Whether the hat is centered.
    pub fn is_center(&self) -> (r: bool)
        ensures
            r == (*self == HatPosition::Center),
    {
        *self == HatPosition::Center
    }

    /// Directions (up, right, down, left) the position presses; diagonals
    /// press two.
    pub open spec fn spec_dpad(self) -> (bool, bool, bool, bool) {
        match self {
            HatPosition::North => (true, false, false, false),
            HatPosition::NorthEast => (true, true, false, false),
            HatPosition::East => (false, true, false, false),
            HatPosition::SouthEast => (false, true, true, false),
            HatPosition::South => (false, false, true, false),
            HatPosition::SouthWest => (false, false, true, true),
            HatPosition::West => (false, false, false, true),
            HatPosition::NorthWest => (true, false, false, true),
            HatPosition::Center => (false, false, false, false),
        }
    }

    /// Directions (up, right, down, left) the position presses.
    pub fn to_dpad_bits(&self) -> (r: (bool, bool, bool, bool))
        ensures
            r == self.spec_dpad(),
    {
        match self {
            HatPosition::North => (true, false, false, false),
            HatPosition::NorthEast => (true, true, false, false),
            HatPosition::East => (false, true, false, false),
            HatPosition::SouthEast => (false, true, true, false),
            HatPosition::South => (false, false, true, false),
            HatPosition::SouthWest => (false, false, true, true),
            HatPosition::West => (false, false, false, true),
            HatPosition::NorthWest => (true, false, false, true),
            HatPosition::Center => (false, false, false, false),
        }
    }
}

// ============================================================================
// Gamepad state
// ============================================================================

/// A snapshot of a gamepad.
#[derive(Clone, Debug)]
pub struct GamepadState {
    /// Pressed buttons, one bit each (see `GamepadButton`).
    pub buttons: u32,
    /// Axis values, indexed by `GamepadAxis`.
    pub axes: [i16; 12],
    pub hat: HatPosition,
    /// Battery level 0 to 100; 101: unknown.
    pub battery: u8,
    pub connected: bool,
    /// Changed since last read.
    pub updated: bool,
}

/// Whether bit `b` of `x` is set.
pub open spec fn bit_set(x: u32, b: u8) -> bool {
    x & (1u32 << b) != 0
}

impl GamepadState {
    /// Whether `s` is the idle state: no buttons, all axes 0, hat
    /// centered, battery 0, disconnected, not updated.
    pub open spec fn is_idle(s: GamepadState) -> bool {
        &&& s.buttons == 0
        &&& s.axes@ == Seq::new(12, |i: int| 0i16)
        &&& s.hat == HatPosition::Center
        &&& s.battery == 0
        &&& !s.connected
        &&& !s.updated
    }

    /// Whether button `btn` is pressed.
    pub fn is_pressed(&self, btn: GamepadButton) -> (r: bool)
        ensures
            r == bit_set(self.buttons, btn.spec_bit()),
    {
        let b = btn.bit();
        (self.buttons & (1u32 << b)) != 0
    }

    /// Marks the state as read.
    pub fn mark_read(&mut self)
        ensures
            *final(self) == (GamepadState { updated: false, ..*old(self) }),
    {
        self.updated = false;
    }

    /// The idle state of a disconnected gamepad.
    pub fn disconnected() -> (r: Self)
        ensures
            Self::is_idle(r),
    {
        Self::default()
    }
}

impl Default for GamepadState {
    /// The idle state (see `GamepadState::is_idle`).
    fn default() -> (r: Self)
        ensures
            GamepadState::is_idle(r),
    {
        let r = GamepadState {
            buttons: 0,
            axes: [0i16; 12],
            hat: HatPosition::Center,
            battery: 0,
            connected: false,
            updated: false,
        };
        assert(r.axes@ =~= Seq::new(12, |i: int| 0i16));
        r
    }
}

// ============================================================================
// Report layouts and controller profiles
// ============================================================================

/// What a report descriptor says of the input reports.
#[derive(Clone, Debug)]
pub struct HidReportLayout {
    /// Input report size in bytes.
    pub input_report_size: u8,
    pub button_count: u8,
    /// Analog sticks and triggers.
    pub axis_count: u8,
    pub has_hat: bool,
    /// Accelerometer and gyroscope data.
    pub has_imu: bool,
    pub button_offset: u8,
    pub axis_offset: u8,
    pub hat_offset: u8,
}

impl Default for HidReportLayout {
    /// Everything zero or absent.
    fn default() -> (r: Self)
        ensures
            r.input_report_size == 0 && r.button_count == 0 && r.axis_count == 0,
            !r.has_hat && !r.has_imu,
            r.button_offset == 0 && r.axis_offset == 0 && r.hat_offset == 0,
    {
        HidReportLayout {
            input_report_size: 0,
            button_count: 0,
            axis_count: 0,
            has_hat: false,
            has_imu: false,
            button_offset: 0,
            axis_offset: 0,
            hat_offset: 0,
        }
    }
}

/// Known controller families.
#[derive(Clone, Copy, PartialEq, Eq, Debug, Structural)]
pub enum HidGamepadProfile {
    /// Sony DualShock 4.
    DualShock4,
    /// Sony DualSense.
    DualSense,
    /// Nintendo Switch Pro Controller.
    SwitchPro,
    /// Xbox Wireless Controller over LE.
    XboxBle,
    /// 8BitDo and other plain HID gamepads.
    Generic,
    /// Not recognised.
    Unknown,
}

/// `str::to_lowercase` applied to a text: its Unicode lowercase form.
pub uninterp spec fn lowercase_of(s: Seq<char>) -> Seq<char>;

/// Calls `str::to_lowercase`; the result is named `lowercase_of`, a
/// function of the text alone (Unicode case mapping, independent of
/// locale).
#[verifier::external_body]
fn to_lowercase(s: &str) -> (r: String)
    ensures
        r@ == lowercase_of(s@),
{
    s.to_lowercase()
}

/// Whether `needle` occurs in `hay`.
pub open spec fn contains_chars(hay: Seq<char>, needle: Seq<char>) -> bool {
    exists|i: int| 0 <= i && i + needle.len() <= hay.len() && #[trigger] hay.subrange(i, i + needle.len()) == needle
}

/// Whether `needle` occurs in `hay`.
fn str_contains(hay: &str, needle: &str) -> (r: bool)
    ensures
        r == contains_chars(hay@, needle@),
{
    let n = needle.unicode_len();
    let h = hay.unicode_len();
    if n > h {
        proof {
            assert forall|i: int| 0 <= i && i + needle@.len() <= hay@.len() implies
                #[trigger] hay@.subrange(i, i + needle@.len()) != needle@ by {}
        }
        return false;
    }
    let mut i: usize = 0;
    while i <= h - n
        invariant
            n == needle@.len(),
            h == hay@.len(),
            n <= h,
            i <= h - n + 1,
            forall|k: int| 0 <= k < i ==> #[trigger] hay@.subrange(k, k + n) != needle@,
        decreases h - n + 1 - i,
    {
        let mut j: usize = 0;
        let mut same = true;
        while j < n
            invariant
                n == needle@.len(),
                h == hay@.len(),
                i + n <= h,
                j <= n,
                same == (forall|k: int| 0 <= k < j ==> hay@[i + k] == needle@[k]),
            decreases n - j,
        {
            if hay.get_char(i + j) != needle.get_char(j) {
                same = false;
            }
            j = j + 1;
        }
        if same {
            assert(hay@.subrange(i as int, i + n) =~= needle@);
            return true;
        }
        assert(hay@.subrange(i as int, i + n) != needle@) by {
            let w = choose|k: int| 0 <= k < n && hay@[i + k] != needle@[k];
            assert(hay@.subrange(i as int, i + n)[w] == hay@[i + w]);
        }
        i = i + 1;
    }
    proof {
        assert forall|k: int| 0 <= k && k + needle@.len() <= hay@.len() implies
            #[trigger] hay@.subrange(k, k + needle@.len()) != needle@ by {
            assert(k < i);
        }
    }
    false
}

/// The profile a lowercase device name `l` points to: Xbox names first,
/// then DualShock 4, DualSense, Switch and 8BitDo names.
pub open spec fn profile_of_name(l: Seq<char>) -> HidGamepadProfile {
    if contains_chars(l, "xbox"@) || contains_chars(l, "xbox controller"@) {
        HidGamepadProfile::XboxBle
    } else if contains_chars(l, "dualshock"@) || contains_chars(l, "ds4"@) || contains_chars(l, "wireless controller"@) {
        HidGamepadProfile::DualShock4
    } else if contains_chars(l, "dualsense"@) || contains_chars(l, "ds5"@) || contains_chars(l, "ps5"@) {
        HidGamepadProfile::DualSense
    } else if contains_chars(l, "switch"@) || contains_chars(l, "pro controller"@) || contains_chars(l, "joy-con"@) {
        HidGamepadProfile::SwitchPro
    } else if contains_chars(l, "8bitdo"@) || contains_chars(l, "8bit"@) {
        HidGamepadProfile::Generic
    } else {
        HidGamepadProfile::Unknown
    }
}

/// The profile a lowercase device name points to (see `profile_of_name`).
pub fn profile_of_lowercase(l: &str) -> (r: HidGamepadProfile)
    ensures
    r == profile_of_name(l@),
{
    if str_contains(l, "xbox") || str_contains(l, "xbox controller") {
        return HidGamepadProfile::XboxBle;
    }
    if str_contains(l, "dualshock") || str_contains(l, "ds4") || str_contains(l, "wireless controller") {
        return HidGamepadProfile::DualShock4;
    }
    if str_contains(l, "dualsense") || str_contains(l, "ds5") || str_contains(l, "ps5") {
        return HidGamepadProfile::DualSense;
    }
    if str_contains(l, "switch") || str_contains(l, "pro controller") || str_contains(l, "joy-con") {
        return HidGamepadProfile::SwitchPro;
    }
    if str_contains(l, "8bitdo") || str_contains(l, "8bit") {
        return HidGamepadProfile::Generic;
    }
    HidGamepadProfile::Unknown
}

impl HidGamepadProfile {
    /// The profile a device name points to (see `profile_of_name`), read
    /// from its lowercase form; the appearance is not used.
    pub fn detect(name: &str, _appearance: Option<u16>) -> (r: Self)
        ensures
            r == profile_of_name(lowercase_of(name@)),
    {
        let lower = to_lowercase(name);
        profile_of_lowercase(lower.as_str())
    }

    /// Expected input report size in bytes; 0 when it must be read from
    /// the report descriptor.
    pub open spec fn spec_report_size(self) -> u8 {
        match self {
            HidGamepadProfile::DualShock4 => 48,
            HidGamepadProfile::DualSense => 48,
            HidGamepadProfile::SwitchPro => 8,
            HidGamepadProfile::XboxBle => 20,
            HidGamepadProfile::Generic => 0,
            HidGamepadProfile::Unknown => 0,
        }
    }

    /// Expected input report size in bytes.
    pub fn input_report_size(&self) -> (r: u8)
        ensures
            r == self.spec_report_size(),
    {
        match self {
            HidGamepadProfile::DualShock4 => 48,
            HidGamepadProfile::DualSense => 48,
            HidGamepadProfile::SwitchPro => 8,
            HidGamepadProfile::XboxBle => 20,
            HidGamepadProfile::Generic => 0,
            HidGamepadProfile::Unknown => 0,
        }
    }
}

// ============================================================================
// Input reports
// ============================================================================

/// A button mask built from the bits of `src`: for each (source bit,
/// button bit) pair of `map` whose source bit is set, that button bit.
pub open spec fn remap(src: u32, map: Seq<(u8, u8)>) -> u32
    decreases map.len(),
{
    if map.len() == 0 {
        0
    } else {
        let b = remap(src, map.drop_last());
        if bit_set(src, map.last().0) { b | (1u32 << map.last().1) } else { b }
    }
}

/// DualShock 4 buttons: bits 0-15 of the button word, and the touchpad
/// click (bit 4 of the hat byte, here bit 20), to standard buttons.
pub open spec fn ds4_map() -> Seq<(u8, u8)> {
    seq![(0u8, 8u8), (1, 10), (2, 11), (3, 9), (4, 14), (5, 17), (6, 15), (7, 16),
        (8, 4), (9, 5), (10, 6), (11, 7), (12, 13), (13, 9), (14, 12), (15, 18), (20, 13)]
}

/// Switch Pro buttons: the second button byte in bits 0-7, the first in
/// bits 8-15, to standard buttons.
pub open spec fn switch_map() -> Seq<(u8, u8)> {
    seq![(0u8, 0u8), (1, 1), (2, 2), (3, 3), (12, 4), (13, 5), (14, 6), (15, 7),
        (4, 8), (5, 9), (6, 10), (7, 11)]
}

/// Plain HID gamepad buttons: bits 0-10 of the button word.
pub open spec fn generic_map() -> Seq<(u8, u8)> {
    seq![(0u8, 0u8), (1, 1), (2, 2), (3, 3), (4, 4), (5, 5), (6, 8), (7, 9), (8, 10), (9, 11), (10, 12)]
}

/// Whether every bit number in `map` is below 32.
pub open spec fn map_in_range(map: Seq<(u8, u8)>) -> bool {
    forall|i: int| 0 <= i < map.len() ==> (#[trigger] map[i]).0 < 32 && map[i].1 < 32
}

/// Computes `remap(src, map)`.
fn remap_buttons(src: u32, map: &[(u8, u8)]) -> (r: u32)
    requires
        map_in_range(map@),
    ensures
        r == remap(src, map@),
{
    let mut b: u32 = 0;
    let mut i: usize = 0;
    while i < map.len()
        invariant
            i <= map@.len(),
            map_in_range(map@),
            b == remap(src, map@.take(i as int)),
        decreases map@.len() - i,
    {
        let (from, to) = map[i];
        proof {
            assert(map@.take(i + 1).drop_last() =~= map@.take(i as int));
            assert(map@.take(i + 1).last() == map@[i as int]);
        }
        if src & (1u32 << from) != 0 {
            b = b | (1u32 << to);
        }
        i = i + 1;
    }
    assert(map@.take(i as int) =~= map@);
    b
}

proof fn lemma_or_bit(x: u32, t: u8, k: u8)
    by (bit_vector)
    requires
        t < 32,
        k < 32,
    ensures
        bit_set(x | (1u32 << t), k) == (bit_set(x, k) || t == k),
        !bit_set(0u32, k),
{
}

/// Bit `k` of a remapped mask is set exactly when some pair of `map` sends
/// a set source bit to `k`.
pub proof fn lemma_remap_bit(src: u32, map: Seq<(u8, u8)>, k: u8)
    requires
        map_in_range(map),
        k < 32,
    ensures
        bit_set(remap(src, map), k) <==> exists|i: int| 0 <= i < map.len() && (#[trigger] map[i]).1 == k
            && bit_set(src, map[i].0),
    decreases map.len(),
{
    if map.len() == 0 {
        lemma_or_bit(0, 0, k);
    } else {
        let p = map.drop_last();
        assert(map_in_range(p)) by {
            assert forall|i: int| 0 <= i < p.len() implies (#[trigger] p[i]).0 < 32 && p[i].1 < 32 by {
                assert(p[i] == map[i]);
            }
        }
        lemma_remap_bit(src, p, k);
        let l = map.last();
        assert(l == map[map.len() - 1]);
        lemma_or_bit(remap(src, p), l.1, k);
        if bit_set(remap(src, map), k) {
            if bit_set(remap(src, p), k) {
                let i = choose|i: int| 0 <= i < p.len() && (#[trigger] p[i]).1 == k && bit_set(src, p[i].0);
                assert(map[i] == p[i]);
            } else {
                assert(map[map.len() - 1].1 == k && bit_set(src, map[map.len() - 1].0));
            }
        }
        if exists|i: int| 0 <= i < map.len() && (#[trigger] map[i]).1 == k && bit_set(src, map[i].0) {
            let i = choose|i: int| 0 <= i < map.len() && (#[trigger] map[i]).1 == k && bit_set(src, map[i].0);
            if i < map.len() - 1 {
                assert(p[i] == map[i]);
            }
        }
    }
}

proof fn lemma_ds4_source_bits(lo: u16, hi: u8)
    by (bit_vector)
    ensures
        bit_set(lo as u32 | ((hi as u32) << 16u32), 0) == (lo & 0x0001u16 != 0),
        bit_set(lo as u32 | ((hi as u32) << 16u32), 1) == (lo & 0x0002u16 != 0),
        bit_set(lo as u32 | ((hi as u32) << 16u32), 2) == (lo & 0x0004u16 != 0),
        bit_set(lo as u32 | ((hi as u32) << 16u32), 3) == (lo & 0x0008u16 != 0),
        bit_set(lo as u32 | ((hi as u32) << 16u32), 4) == (lo & 0x0010u16 != 0),
        bit_set(lo as u32 | ((hi as u32) << 16u32), 5) == (lo & 0x0020u16 != 0),
        bit_set(lo as u32 | ((hi as u32) << 16u32), 6) == (lo & 0x0040u16 != 0),
        bit_set(lo as u32 | ((hi as u32) << 16u32), 7) == (lo & 0x0080u16 != 0),
        bit_set(lo as u32 | ((hi as u32) << 16u32), 8) == (lo & 0x0100u16 != 0),
        bit_set(lo as u32 | ((hi as u32) << 16u32), 9) == (lo & 0x0200u16 != 0),
        bit_set(lo as u32 | ((hi as u32) << 16u32), 10) == (lo & 0x0400u16 != 0),
        bit_set(lo as u32 | ((hi as u32) << 16u32), 11) == (lo & 0x0800u16 != 0),
        bit_set(lo as u32 | ((hi as u32) << 16u32), 12) == (lo & 0x1000u16 != 0),
        bit_set(lo as u32 | ((hi as u32) << 16u32), 13) == (lo & 0x2000u16 != 0),
        bit_set(lo as u32 | ((hi as u32) << 16u32), 14) == (lo & 0x4000u16 != 0),
        bit_set(lo as u32 | ((hi as u32) << 16u32), 15) == (lo & 0x8000u16 != 0),
        bit_set(lo as u32 | ((hi as u32) << 16u32), 20) == (hi & 0x10u8 != 0),
{
}

proof fn lemma_ds4_map_entries()
    ensures
        map_in_range(ds4_map()),
        ds4_map().len() == 17,
        ds4_map()[0] == (0u8, 8u8), ds4_map()[1] == (1u8, 10u8), ds4_map()[2] == (2u8, 11u8),
        ds4_map()[3] == (3u8, 9u8), ds4_map()[4] == (4u8, 14u8), ds4_map()[5] == (5u8, 17u8),
        ds4_map()[6] == (6u8, 15u8), ds4_map()[7] == (7u8, 16u8), ds4_map()[8] == (8u8, 4u8),
        ds4_map()[9] == (9u8, 5u8), ds4_map()[10] == (10u8, 6u8), ds4_map()[11] == (11u8, 7u8),
        ds4_map()[12] == (12u8, 13u8), ds4_map()[13] == (13u8, 9u8), ds4_map()[14] == (14u8, 12u8),
        ds4_map()[15] == (15u8, 18u8), ds4_map()[16] == (20u8, 13u8),
{
}

/// Which standard button bit `k` a DualShock 4 button word `lo` (bits
/// 0-15) and extra byte `hi` (touchpad click in bit 4) press.
proof fn lemma_ds4_button(lo: u16, hi: u8, k: u8)
    requires
        k < 32,
    ensures
        bit_set(remap(lo as u32 | ((hi as u32) << 16u32), ds4_map()), k) == (
            (k == 8 && lo & 0x0001u16 != 0) || (k == 10 && lo & 0x0002u16 != 0)
            || (k == 11 && lo & 0x0004u16 != 0) || (k == 9 && (lo & 0x0008u16 != 0 || lo & 0x2000u16 != 0))
            || (k == 14 && lo & 0x0010u16 != 0) || (k == 17 && lo & 0x0020u16 != 0)
            || (k == 15 && lo & 0x0040u16 != 0) || (k == 16 && lo & 0x0080u16 != 0)
            || (k == 4 && lo & 0x0100u16 != 0) || (k == 5 && lo & 0x0200u16 != 0)
            || (k == 6 && lo & 0x0400u16 != 0) || (k == 7 && lo & 0x0800u16 != 0)
            || (k == 13 && (lo & 0x1000u16 != 0 || hi & 0x10u8 != 0)) || (k == 12 && lo & 0x4000u16 != 0)
            || (k == 18 && lo & 0x8000u16 != 0)),
{
    let src = lo as u32 | ((hi as u32) << 16u32);
    lemma_ds4_map_entries();
    lemma_ds4_source_bits(lo, hi);
    lemma_remap_bit(src, ds4_map(), k);
    let m = ds4_map();
    if bit_set(remap(src, m), k) {
        let i = choose|i: int| 0 <= i < m.len() && (#[trigger] m[i]).1 == k && bit_set(src, m[i].0);
        assert(0 <= i < 17);
        assert(i == 0 || i == 1 || i == 2 || i == 3 || i == 4 || i == 5 || i == 6 || i == 7 || i == 8 || i == 9
            || i == 10 || i == 11 || i == 12 || i == 13 || i == 14 || i == 15 || i == 16);
    } else {
        assert(!(m[0].1 == k && bit_set(src, m[0].0)));
        assert(!(m[1].1 == k && bit_set(src, m[1].0)));
        assert(!(m[2].1 == k && bit_set(src, m[2].0)));
        assert(!(m[3].1 == k && bit_set(src, m[3].0)));
        assert(!(m[4].1 == k && bit_set(src, m[4].0)));
        assert(!(m[5].1 == k && bit_set(src, m[5].0)));
        assert(!(m[6].1 == k && bit_set(src, m[6].0)));
        assert(!(m[7].1 == k && bit_set(src, m[7].0)));
        assert(!(m[8].1 == k && bit_set(src, m[8].0)));
        assert(!(m[9].1 == k && bit_set(src, m[9].0)));
        assert(!(m[10].1 == k && bit_set(src, m[10].0)));
        assert(!(m[11].1 == k && bit_set(src, m[11].0)));
        assert(!(m[12].1 == k && bit_set(src, m[12].0)));
        assert(!(m[13].1 == k && bit_set(src, m[13].0)));
        assert(!(m[14].1 == k && bit_set(src, m[14].0)));
        assert(!(m[15].1 == k && bit_set(src, m[15].0)));
        assert(!(m[16].1 == k && bit_set(src, m[16].0)));
    }
}

/// The buttons of a DualShock 4 / DualSense report (at least 6 bytes; a
/// report ID 0x01 or 0x11 skipped), for a state `s` decoded from it: with
/// `lo` the 16-bit little-endian button word and `hi` the byte after it,
/// - Select ← bit 0, L3 (LeftStick) ← bit 1, R3 (RightStick) ← bit 2,
///   Start ← bit 3 or bit 13 (Options);
/// - D-pad up, right, down, left ← bits 4, 5, 6, 7;
/// - LB, RB, LT, RT ← bits 8, 9, 10, 11;
/// - Capture ← bit 12 (Share) or the touchpad click (bit 4 of `hi`),
///   Guide ← bit 14, Misc ← bit 15;
/// - A, B, X and Y are never pressed.
pub proof fn lemma_ds4_buttons(d: Seq<u8>, s: GamepadState)
    requires
        d.len() >= 6,
        decoded(s, report_fields(HidGamepadProfile::DualShock4, d)),
    ensures
        ({
            let off: int = if d[0] == 0x01 || d[0] == 0x11 { 1 } else { 0 };
            let lo = u16_le(d[off], d[off + 1]);
            let hi = d[off + 2];
            &&& GamepadButton::Select.spec_bit() == 8 && bit_set(s.buttons, 8) == (lo & 0x0001u16 != 0)
            &&& GamepadButton::LeftStick.spec_bit() == 10 && bit_set(s.buttons, 10) == (lo & 0x0002u16 != 0)
            &&& GamepadButton::RightStick.spec_bit() == 11 && bit_set(s.buttons, 11) == (lo & 0x0004u16 != 0)
            &&& GamepadButton::Start.spec_bit() == 9
                && bit_set(s.buttons, 9) == (lo & 0x0008u16 != 0 || lo & 0x2000u16 != 0)
            &&& GamepadButton::DpadUp.spec_bit() == 14 && bit_set(s.buttons, 14) == (lo & 0x0010u16 != 0)
            &&& GamepadButton::DpadRight.spec_bit() == 17 && bit_set(s.buttons, 17) == (lo & 0x0020u16 != 0)
            &&& GamepadButton::DpadDown.spec_bit() == 15 && bit_set(s.buttons, 15) == (lo & 0x0040u16 != 0)
            &&& GamepadButton::DpadLeft.spec_bit() == 16 && bit_set(s.buttons, 16) == (lo & 0x0080u16 != 0)
            &&& GamepadButton::LeftBumper.spec_bit() == 4 && bit_set(s.buttons, 4) == (lo & 0x0100u16 != 0)
            &&& GamepadButton::RightBumper.spec_bit() == 5 && bit_set(s.buttons, 5) == (lo & 0x0200u16 != 0)
            &&& GamepadButton::LeftTrigger.spec_bit() == 6 && bit_set(s.buttons, 6) == (lo & 0x0400u16 != 0)
            &&& GamepadButton::RightTrigger.spec_bit() == 7 && bit_set(s.buttons, 7) == (lo & 0x0800u16 != 0)
            &&& GamepadButton::Capture.spec_bit() == 13
                && bit_set(s.buttons, 13) == (lo & 0x1000u16 != 0 || hi & 0x10u8 != 0)
            &&& GamepadButton::Guide.spec_bit() == 12 && bit_set(s.buttons, 12) == (lo & 0x4000u16 != 0)
            &&& GamepadButton::Misc.spec_bit() == 18 && bit_set(s.buttons, 18) == (lo & 0x8000u16 != 0)
            &&& !bit_set(s.buttons, 0) && !bit_set(s.buttons, 1) && !bit_set(s.buttons, 2) && !bit_set(s.buttons, 3)
        }),
{
    let off: int = if d[0] == 0x01 || d[0] == 0x11 { 1 } else { 0 };
    let lo = u16_le(d[off], d[off + 1]);
    let hi = d[off + 2];
    assert(s.buttons == remap(lo as u32 | ((hi as u32) << 16u32), ds4_map()));
    lemma_ds4_button(lo, hi, 0);
    lemma_ds4_button(lo, hi, 1);
    lemma_ds4_button(lo, hi, 2);
    lemma_ds4_button(lo, hi, 3);
    lemma_ds4_button(lo, hi, 4);
    lemma_ds4_button(lo, hi, 5);
    lemma_ds4_button(lo, hi, 6);
    lemma_ds4_button(lo, hi, 7);
    lemma_ds4_button(lo, hi, 8);
    lemma_ds4_button(lo, hi, 9);
    lemma_ds4_button(lo, hi, 10);
    lemma_ds4_button(lo, hi, 11);
    lemma_ds4_button(lo, hi, 12);
    lemma_ds4_button(lo, hi, 13);
    lemma_ds4_button(lo, hi, 14);
    lemma_ds4_button(lo, hi, 15);
    lemma_ds4_button(lo, hi, 16);
    lemma_ds4_button(lo, hi, 17);
    lemma_ds4_button(lo, hi, 18);
}

proof fn lemma_switch_source_bits(a: u8, b: u8)
    by (bit_vector)
    ensures
        bit_set(b as u32 | ((a as u32) << 8u32), 0) == (b & 0x01u8 != 0),
        bit_set(b as u32 | ((a as u32) << 8u32), 1) == (b & 0x02u8 != 0),
        bit_set(b as u32 | ((a as u32) << 8u32), 2) == (b & 0x04u8 != 0),
        bit_set(b as u32 | ((a as u32) << 8u32), 3) == (b & 0x08u8 != 0),
        bit_set(b as u32 | ((a as u32) << 8u32), 4) == (b & 0x10u8 != 0),
        bit_set(b as u32 | ((a as u32) << 8u32), 5) == (b & 0x20u8 != 0),
        bit_set(b as u32 | ((a as u32) << 8u32), 6) == (b & 0x40u8 != 0),
        bit_set(b as u32 | ((a as u32) << 8u32), 7) == (b & 0x80u8 != 0),
        bit_set(b as u32 | ((a as u32) << 8u32), 12) == (a & 0x10u8 != 0),
        bit_set(b as u32 | ((a as u32) << 8u32), 13) == (a & 0x20u8 != 0),
        bit_set(b as u32 | ((a as u32) << 8u32), 14) == (a & 0x40u8 != 0),
        bit_set(b as u32 | ((a as u32) << 8u32), 15) == (a & 0x80u8 != 0),
{
}

proof fn lemma_switch_button(a: u8, b: u8, k: u8)
    requires
        k < 32,
    ensures
        bit_set(remap(b as u32 | ((a as u32) << 8u32), switch_map()), k) == (
            (k == 0 && b & 0x01u8 != 0) || (k == 1 && b & 0x02u8 != 0) || (k == 2 && b & 0x04u8 != 0)
            || (k == 3 && b & 0x08u8 != 0) || (k == 4 && a & 0x10u8 != 0) || (k == 5 && a & 0x20u8 != 0)
            || (k == 6 && a & 0x40u8 != 0) || (k == 7 && a & 0x80u8 != 0) || (k == 8 && b & 0x10u8 != 0)
            || (k == 9 && b & 0x20u8 != 0) || (k == 10 && b & 0x40u8 != 0) || (k == 11 && b & 0x80u8 != 0)),
{
    let src = b as u32 | ((a as u32) << 8u32);
    let m = switch_map();
    assert(m.len() == 12 && m[0] == (0u8, 0u8) && m[1] == (1u8, 1u8) && m[2] == (2u8, 2u8) && m[3] == (3u8, 3u8)
        && m[4] == (12u8, 4u8) && m[5] == (13u8, 5u8) && m[6] == (14u8, 6u8) && m[7] == (15u8, 7u8)
        && m[8] == (4u8, 8u8) && m[9] == (5u8, 9u8) && m[10] == (6u8, 10u8) && m[11] == (7u8, 11u8));
    assert(map_in_range(m));
    lemma_switch_source_bits(a, b);
    lemma_remap_bit(src, m, k);
    if bit_set(remap(src, m), k) {
        let i = choose|i: int| 0 <= i < m.len() && (#[trigger] m[i]).1 == k && bit_set(src, m[i].0);
        assert(i == 0 || i == 1 || i == 2 || i == 3 || i == 4 || i == 5 || i == 6 || i == 7 || i == 8 || i == 9 || i == 10 || i == 11);
    } else {
        assert(!(m[0].1 == k && bit_set(src, m[0].0)));
        assert(!(m[1].1 == k && bit_set(src, m[1].0)));
        assert(!(m[2].1 == k && bit_set(src, m[2].0)));
        assert(!(m[3].1 == k && bit_set(src, m[3].0)));
        assert(!(m[4].1 == k && bit_set(src, m[4].0)));
        assert(!(m[5].1 == k && bit_set(src, m[5].0)));
        assert(!(m[6].1 == k && bit_set(src, m[6].0)));
        assert(!(m[7].1 == k && bit_set(src, m[7].0)));
        assert(!(m[8].1 == k && bit_set(src, m[8].0)));
        assert(!(m[9].1 == k && bit_set(src, m[9].0)));
        assert(!(m[10].1 == k && bit_set(src, m[10].0)));
        assert(!(m[11].1 == k && bit_set(src, m[11].0)));
    }
}

/// The buttons of a Switch Pro report, for a state `s` decoded from it:
/// with `a` and `b` the two button bytes, A, B, X, Y ← bits 0-3 of `b`;
/// LB, RB, LT, RT ← bits 4-7 of `a`; Select (−), Start (+), L3, R3 ←
/// bits 4-7 of `b`; no other button is pressed.
pub proof fn lemma_switch_buttons(d: Seq<u8>, s: GamepadState)
    requires
        decoded(s, report_fields(HidGamepadProfile::SwitchPro, d)),
        report_fields(HidGamepadProfile::SwitchPro, d) is Some,
    ensures
        ({
            let off: int = if d[0] == 0x30 || d[0] == 0x3F || d[0] == 0x21 { 3 } else { 0 };
            let a = d[off];
            let b = d[off + 1];
            &&& bit_set(s.buttons, 0) == (b & 0x01u8 != 0) && GamepadButton::A.spec_bit() == 0
            &&& bit_set(s.buttons, 1) == (b & 0x02u8 != 0) && GamepadButton::B.spec_bit() == 1
            &&& bit_set(s.buttons, 2) == (b & 0x04u8 != 0) && GamepadButton::X.spec_bit() == 2
            &&& bit_set(s.buttons, 3) == (b & 0x08u8 != 0) && GamepadButton::Y.spec_bit() == 3
            &&& bit_set(s.buttons, 4) == (a & 0x10u8 != 0) && bit_set(s.buttons, 5) == (a & 0x20u8 != 0)
            &&& bit_set(s.buttons, 6) == (a & 0x40u8 != 0) && bit_set(s.buttons, 7) == (a & 0x80u8 != 0)
            &&& bit_set(s.buttons, 8) == (b & 0x10u8 != 0) && bit_set(s.buttons, 9) == (b & 0x20u8 != 0)
            &&& bit_set(s.buttons, 10) == (b & 0x40u8 != 0) && bit_set(s.buttons, 11) == (b & 0x80u8 != 0)
            &&& forall|k: u8| 12 <= k < 32 ==> !bit_set(s.buttons, k)
        }),
{
    let off: int = if d[0] == 0x30 || d[0] == 0x3F || d[0] == 0x21 { 3 } else { 0 };
    let a = d[off];
    let b = d[off + 1];
    lemma_switch_button(a, b, 0);
    lemma_switch_button(a, b, 1);
    lemma_switch_button(a, b, 2);
    lemma_switch_button(a, b, 3);
    lemma_switch_button(a, b, 4);
    lemma_switch_button(a, b, 5);
    lemma_switch_button(a, b, 6);
    lemma_switch_button(a, b, 7);
    lemma_switch_button(a, b, 8);
    lemma_switch_button(a, b, 9);
    lemma_switch_button(a, b, 10);
    lemma_switch_button(a, b, 11);
    assert forall|k: u8| 12 <= k < 32 implies !bit_set(s.buttons, k) by {
        lemma_switch_button(a, b, k);
    }
}

proof fn lemma_generic_source_bits(w: u16)
    by (bit_vector)
    ensures
        bit_set(w as u32, 0) == (w & 0x0001u16 != 0),
        bit_set(w as u32, 1) == (w & 0x0002u16 != 0),
        bit_set(w as u32, 2) == (w & 0x0004u16 != 0),
        bit_set(w as u32, 3) == (w & 0x0008u16 != 0),
        bit_set(w as u32, 4) == (w & 0x0010u16 != 0),
        bit_set(w as u32, 5) == (w & 0x0020u16 != 0),
        bit_set(w as u32, 6) == (w & 0x0040u16 != 0),
        bit_set(w as u32, 7) == (w & 0x0080u16 != 0),
        bit_set(w as u32, 8) == (w & 0x0100u16 != 0),
        bit_set(w as u32, 9) == (w & 0x0200u16 != 0),
        bit_set(w as u32, 10) == (w & 0x0400u16 != 0),
{
}

proof fn lemma_generic_button(w: u16, k: u8)
    requires
        k < 32,
    ensures
        bit_set(remap(w as u32, generic_map()), k) == (
            (k == 0 && w & 0x0001u16 != 0) || (k == 1 && w & 0x0002u16 != 0) || (k == 2 && w & 0x0004u16 != 0)
            || (k == 3 && w & 0x0008u16 != 0) || (k == 4 && w & 0x0010u16 != 0) || (k == 5 && w & 0x0020u16 != 0)
            || (k == 8 && w & 0x0040u16 != 0) || (k == 9 && w & 0x0080u16 != 0) || (k == 10 && w & 0x0100u16 != 0)
            || (k == 11 && w & 0x0200u16 != 0) || (k == 12 && w & 0x0400u16 != 0)),
{
    let src = w as u32;
    let m = generic_map();
    assert(m.len() == 11 && m[0] == (0u8, 0u8) && m[1] == (1u8, 1u8) && m[2] == (2u8, 2u8) && m[3] == (3u8, 3u8)
        && m[4] == (4u8, 4u8) && m[5] == (5u8, 5u8) && m[6] == (6u8, 8u8) && m[7] == (7u8, 9u8)
        && m[8] == (8u8, 10u8) && m[9] == (9u8, 11u8) && m[10] == (10u8, 12u8));
    assert(map_in_range(m));
    lemma_generic_source_bits(w);
    lemma_remap_bit(src, m, k);
    if bit_set(remap(src, m), k) {
        let i = choose|i: int| 0 <= i < m.len() && (#[trigger] m[i]).1 == k && bit_set(src, m[i].0);
        assert(i == 0 || i == 1 || i == 2 || i == 3 || i == 4 || i == 5 || i == 6 || i == 7 || i == 8 || i == 9 || i == 10);
    } else {
        assert(!(m[0].1 == k && bit_set(src, m[0].0)));
        assert(!(m[1].1 == k && bit_set(src, m[1].0)));
        assert(!(m[2].1 == k && bit_set(src, m[2].0)));
        assert(!(m[3].1 == k && bit_set(src, m[3].0)));
        assert(!(m[4].1 == k && bit_set(src, m[4].0)));
        assert(!(m[5].1 == k && bit_set(src, m[5].0)));
        assert(!(m[6].1 == k && bit_set(src, m[6].0)));
        assert(!(m[7].1 == k && bit_set(src, m[7].0)));
        assert(!(m[8].1 == k && bit_set(src, m[8].0)));
        assert(!(m[9].1 == k && bit_set(src, m[9].0)));
        assert(!(m[10].1 == k && bit_set(src, m[10].0)));
    }
}

/// The buttons of a plain HID pad report (also Xbox, 8BitDo and unknown
/// pads), for a state `s` decoded from it: with `w` the 16-bit
/// little-endian button word, A, B, X, Y, LB, RB ← bits 0-5; Select,
/// Start, L3, R3, Guide ← bits 6-10; no other button is pressed.
pub proof fn lemma_generic_buttons(d: Seq<u8>, s: GamepadState)
    requires
        decoded(s, generic_fields(d)),
        generic_fields(d) is Some,
    ensures
        ({
            let off: int = if d[0] == 0x01 { 1 } else { 0 };
            let w = u16_le(d[off], d[off + 1]);
            &&& bit_set(s.buttons, 0) == (w & 0x0001u16 != 0) && bit_set(s.buttons, 1) == (w & 0x0002u16 != 0)
            &&& bit_set(s.buttons, 2) == (w & 0x0004u16 != 0) && bit_set(s.buttons, 3) == (w & 0x0008u16 != 0)
            &&& bit_set(s.buttons, 4) == (w & 0x0010u16 != 0) && bit_set(s.buttons, 5) == (w & 0x0020u16 != 0)
            &&& GamepadButton::Select.spec_bit() == 8 && bit_set(s.buttons, 8) == (w & 0x0040u16 != 0)
            &&& GamepadButton::Start.spec_bit() == 9 && bit_set(s.buttons, 9) == (w & 0x0080u16 != 0)
            &&& GamepadButton::LeftStick.spec_bit() == 10 && bit_set(s.buttons, 10) == (w & 0x0100u16 != 0)
            &&& GamepadButton::RightStick.spec_bit() == 11 && bit_set(s.buttons, 11) == (w & 0x0200u16 != 0)
            &&& GamepadButton::Guide.spec_bit() == 12 && bit_set(s.buttons, 12) == (w & 0x0400u16 != 0)
            &&& !bit_set(s.buttons, 6) && !bit_set(s.buttons, 7)
            &&& forall|k: u8| 13 <= k < 32 ==> !bit_set(s.buttons, k)
        }),
{
    let off: int = if d[0] == 0x01 { 1 } else { 0 };
    let w = u16_le(d[off], d[off + 1]);
    lemma_generic_button(w, 0);
    lemma_generic_button(w, 1);
    lemma_generic_button(w, 2);
    lemma_generic_button(w, 3);
    lemma_generic_button(w, 4);
    lemma_generic_button(w, 5);
    lemma_generic_button(w, 6);
    lemma_generic_button(w, 7);
    lemma_generic_button(w, 8);
    lemma_generic_button(w, 9);
    lemma_generic_button(w, 10);
    lemma_generic_button(w, 11);
    lemma_generic_button(w, 12);
    assert forall|k: u8| 13 <= k < 32 implies !bit_set(s.buttons, k) by {
        lemma_generic_button(w, k);
    }
}

/// A stick byte, 0 to 255, as a signed axis value: (v - 128) * 256.
pub open spec fn stick(v: u8) -> i16 {
    ((v as int - 128) * 256) as i16
}

/// A trigger byte as an axis value: v * 128.
pub open spec fn trigger(v: u8) -> i16 {
    (v as int * 128) as i16
}

fn stick_value(v: u8) -> (r: i16)
    ensures
        r == stick(v),
{
    (v as i16 - 128) * 256
}

fn trigger_value(v: u8) -> (r: i16)
    ensures
        r == trigger(v),
{
    (v as i16) * 128
}

/// Buttons, hat and axes a report yields; `None` when it is rejected.
pub type ReportFields = Option<(u32, HatPosition, Seq<i16>)>;

/// Twelve axes: the four sticks and two triggers given, the rest 0.
pub open spec fn axes6(lx: i16, ly: i16, rx: i16, ry: i16, lt: i16, rt: i16) -> Seq<i16> {
    seq![lx, ly, rx, ry, lt, rt, 0i16, 0i16, 0i16, 0i16, 0i16, 0i16]
}

/// A DualShock 4 report: at least 6 bytes; a leading report ID 0x01 or
/// 0x11 is skipped; then the button word, the hat byte, the sticks (when
/// 7 bytes follow the ID) and the triggers (when 9 do).
pub open spec fn ds4_fields(d: Seq<u8>) -> ReportFields {
    if d.len() < 6 {
        None
    } else {
        let off: int = if d[0] == 0x01 || d[0] == 0x11 { 1 } else { 0 };
        let lo = u16_le(d[off], d[off + 1]);
        let hi = d[off + 2];
        let sticks = off + 7 <= d.len();
        let trig = off + 9 <= d.len();
        Some((
            remap(lo as u32 | ((hi as u32) << 16u32), ds4_map()),
            hat_of(hi & 0x0F),
            axes6(
                if sticks { stick(d[off + 3]) } else { 0 },
                if sticks { stick(d[off + 4]) } else { 0 },
                if sticks { stick(d[off + 5]) } else { 0 },
                if sticks { stick(d[off + 6]) } else { 0 },
                if trig { trigger(d[off + 7]) } else { 0 },
                if trig { trigger(d[off + 8]) } else { 0 },
            ),
        ))
    }
}

/// A Switch Pro report: at least 3 bytes; a leading report ID 0x30, 0x3F
/// or 0x21 is skipped with the two bytes after it; then at least five
/// bytes: two button bytes (the hat in the low bits of the first), left
/// stick X and Y, right stick X.
pub open spec fn switch_fields(d: Seq<u8>) -> ReportFields {
    if d.len() < 3 {
        None
    } else {
        let off: int = if d[0] == 0x30 || d[0] == 0x3F || d[0] == 0x21 { 3 } else { 0 };
        if off + 5 > d.len() {
            None
        } else {
            let a = d[off];
            let b = d[off + 1];
            Some((
                remap(b as u32 | ((a as u32) << 8u32), switch_map()),
                hat_of(a & 0x0F),
                axes6(stick(d[off + 2]), stick(d[off + 3]), stick(d[off + 4]), 0, 0, 0),
            ))
        }
    }
}

/// A plain HID gamepad report: at least 6 bytes; a leading report ID 0x01
/// is skipped; then at least six bytes: the button word (the hat in its
/// top four bits), four sticks, and two triggers when present.
pub open spec fn generic_fields(d: Seq<u8>) -> ReportFields {
    if d.len() < 6 {
        None
    } else {
        let off: int = if d[0] == 0x01 { 1 } else { 0 };
        if off + 6 > d.len() {
            None
        } else {
            let w = u16_le(d[off], d[off + 1]);
            let trig = off + 8 <= d.len();
            Some((
                remap(w as u32, generic_map()),
                hat_of(((w / 4096) % 16) as u8),
                axes6(
                    stick(d[off + 2]),
                    stick(d[off + 3]),
                    stick(d[off + 4]),
                    stick(d[off + 5]),
                    if trig { trigger(d[off + 6]) } else { 0 },
                    if trig { trigger(d[off + 7]) } else { 0 },
                ),
            ))
        }
    }
}

/// How a report is read for each profile: DualShock 4 and DualSense share
/// a layout; Xbox, 8BitDo and unknown pads are read as plain HID pads.
pub open spec fn report_fields(profile: HidGamepadProfile, d: Seq<u8>) -> ReportFields {
    match profile {
        HidGamepadProfile::DualShock4 | HidGamepadProfile::DualSense => ds4_fields(d),
        HidGamepadProfile::SwitchPro => switch_fields(d),
        _ => generic_fields(d),
    }
}

/// Whether `s` is the state decoded from report fields `f`: idle when the
/// report is rejected, else those fields, connected and updated, battery 0.
pub open spec fn decoded(s: GamepadState, f: ReportFields) -> bool {
    match f {
        None => GamepadState::is_idle(s),
        Some((b, h, ax)) => {
            &&& s.buttons == b
            &&& s.hat == h
            &&& s.axes@ == ax
            &&& s.battery == 0
            &&& s.connected
            &&& s.updated
        },
    }
}

/// A state with the given buttons, hat and axes, connected and updated.
fn decoded_state(buttons: u32, hat: HatPosition, lx: i16, ly: i16, rx: i16, ry: i16, lt: i16, rt: i16) -> (r: GamepadState)
    ensures
        decoded(r, Some((buttons, hat, axes6(lx, ly, rx, ry, lt, rt)))),
{
    let mut axes = [0i16; 12];
    axes[0] = lx;
    axes[1] = ly;
    axes[2] = rx;
    axes[3] = ry;
    axes[4] = lt;
    axes[5] = rt;
    assert(axes@ =~= axes6(lx, ly, rx, ry, lt, rt));
    GamepadState { buttons, axes, hat, battery: 0, connected: true, updated: true }
}

fn parse_ds4_report(data: &[u8]) -> (r: GamepadState)
    ensures
        decoded(r, ds4_fields(data@)),
{
    if data.len() < 6 {
        return GamepadState::default();
    }
    let off: usize = if data[0] == 0x01 || data[0] == 0x11 { 1 } else { 0 };
    let lo = read_u16_le(data[off], data[off + 1]);
    let hi = data[off + 2];
    let map: [(u8, u8); 17] = [(0u8, 8u8), (1, 10), (2, 11), (3, 9), (4, 14), (5, 17), (6, 15), (7, 16),
        (8, 4), (9, 5), (10, 6), (11, 7), (12, 13), (13, 9), (14, 12), (15, 18), (20, 13)];
    assert(map@ =~= ds4_map());
    let buttons = remap_buttons(lo as u32 | ((hi as u32) << 16u32), map.as_slice());
    let hat = HatPosition::from_hat_value(hi);
    assert((hi & 0x0F) & 0x0F == hi & 0x0F) by (bit_vector);
    let sticks = off + 7 <= data.len();
    let trig = off + 9 <= data.len();
    let lx = if sticks { stick_value(data[off + 3]) } else { 0 };
    let ly = if sticks { stick_value(data[off + 4]) } else { 0 };
    let rx = if sticks { stick_value(data[off + 5]) } else { 0 };
    let ry = if sticks { stick_value(data[off + 6]) } else { 0 };
    let lt = if trig { trigger_value(data[off + 7]) } else { 0 };
    let rt = if trig { trigger_value(data[off + 8]) } else { 0 };
    decoded_state(buttons, hat, lx, ly, rx, ry, lt, rt)
}

fn parse_switch_pro_report(data: &[u8]) -> (r: GamepadState)
    ensures
        decoded(r, switch_fields(data@)),
{
    if data.len() < 3 {
        return GamepadState::default();
    }
    let off: usize = if data[0] == 0x30 || data[0] == 0x3F || data[0] == 0x21 { 3 } else { 0 };
    if off + 5 > data.len() {
        return GamepadState::default();
    }
    let btn_a = data[off];
    let btn_b = data[off + 1];
    let map: [(u8, u8); 12] = [(0u8, 0u8), (1, 1), (2, 2), (3, 3), (12, 4), (13, 5), (14, 6), (15, 7),
        (4, 8), (5, 9), (6, 10), (7, 11)];
    assert(map@ =~= switch_map());
    let buttons = remap_buttons(btn_b as u32 | ((btn_a as u32) << 8u32), map.as_slice());
    let hat = HatPosition::from_hat_value(btn_a);
    assert((btn_a & 0x0F) & 0x0F == btn_a & 0x0F) by (bit_vector);
    let lx = stick_value(data[off + 2]);
    let ly = stick_value(data[off + 3]);
    let rx = stick_value(data[off + 4]);
    decoded_state(buttons, hat, lx, ly, rx, 0, 0, 0)
}

fn parse_generic_report(data: &[u8]) -> (r: GamepadState)
    ensures
        decoded(r, generic_fields(data@)),
{
    if data.len() < 6 {
        return GamepadState::default();
    }
    let off: usize = if data[0] == 0x01 { 1 } else { 0 };
    if off + 6 > data.len() {
        return GamepadState::default();
    }
    let w = read_u16_le(data[off], data[off + 1]);
    let map: [(u8, u8); 11] = [(0u8, 0u8), (1, 1), (2, 2), (3, 3), (4, 4), (5, 5), (6, 8), (7, 9), (8, 10), (9, 11), (10, 12)];
    assert(map@ =~= generic_map());
    let buttons = remap_buttons(w as u32, map.as_slice());
    let dpad = ((w / 4096) % 16) as u8;
    let hat = HatPosition::from_hat_value(dpad);
    assert(dpad & 0x0F == dpad) by (bit_vector)
        requires
            dpad < 16;
    let trig = off + 8 <= data.len();
    let lx = stick_value(data[off + 2]);
    let ly = stick_value(data[off + 3]);
    let rx = stick_value(data[off + 4]);
    let ry = stick_value(data[off + 5]);
    let lt = if trig { trigger_value(data[off + 6]) } else { 0 };
    let rt = if trig { trigger_value(data[off + 7]) } else { 0 };
    decoded_state(buttons, hat, lx, ly, rx, ry, lt, rt)
}

/// Decodes an input report of a pad of the given profile (see
/// `report_fields`); a rejected report gives the idle state.
pub fn parse_hid_report(profile: HidGamepadProfile, data: &[u8]) -> (r: GamepadState)
    ensures
        decoded(r, report_fields(profile, data@)),
{
    match profile {
        HidGamepadProfile::DualShock4 | HidGamepadProfile::DualSense => parse_ds4_report(data),
        HidGamepadProfile::SwitchPro => parse_switch_pro_report(data),
        _ => parse_generic_report(data),
    }
}

// ============================================================================
// HID handles among discovered attributes
// ============================================================================

/// Handles of a pad's HID service found by GATT discovery.
#[derive(Clone, Copy, Debug)]
pub struct HidGattHandles {
    /// HID service range.
    pub service_start: u16,
    pub service_end: u16,
    /// HID Information value handle.
    pub hid_info_handle: Option<u16>,
    /// Report Map value handle.
    pub report_map_handle: Option<u16>,
    /// Input Report value handle.
    pub input_report_handle: Option<u16>,
    /// Input Report CCCD handle.
    pub input_report_cccd: Option<u16>,
    /// Protocol Mode value handle.
    pub protocol_mode_handle: Option<u16>,
    /// HID Control Point value handle.
    pub control_point_handle: Option<u16>,
}

/// No service range and no handles.
pub open spec fn no_handles() -> HidGattHandles {
    HidGattHandles {
        service_start: 0,
        service_end: 0,
        hid_info_handle: None,
        report_map_handle: None,
        input_report_handle: None,
        input_report_cccd: None,
        protocol_mode_handle: None,
        control_point_handle: None,
    }
}

impl HidGattHandles {
    /// No service range and no handles.
    pub fn new() -> (r: Self)
        ensures
            r == no_handles(),
    {
        HidGattHandles {
            service_start: 0,
            service_end: 0,
            hid_info_handle: None,
            report_map_handle: None,
            input_report_handle: None,
            input_report_cccd: None,
            protocol_mode_handle: None,
            control_point_handle: None,
        }
    }
}

/// `h` after characteristic `c`: a HID characteristic records its value
/// handle (an input report also its CCCD, or the handle after its value
/// when it has none); others change nothing.
pub open spec fn note_characteristic(h: HidGattHandles, c: GattCharacteristic) -> HidGattHandles {
    let u = c.uuid.bytes@;
    if u == uuid16_bytes(0x2A4A) {
        HidGattHandles { hid_info_handle: Some(c.value_handle), ..h }
    } else if u == uuid16_bytes(0x2A4B) {
        HidGattHandles { report_map_handle: Some(c.value_handle), ..h }
    } else if u == uuid16_bytes(0x2A4D) {
        HidGattHandles {
            input_report_handle: Some(c.value_handle),
            input_report_cccd: match c.cccd_handle {
                Some(x) => Some(x),
                None => Some((c.value_handle + 1) as u16),
            },
            ..h
        }
    } else if u == uuid16_bytes(0x2A4E) {
        HidGattHandles { protocol_mode_handle: Some(c.value_handle), ..h }
    } else if u == uuid16_bytes(0x2A4C) {
        HidGattHandles { control_point_handle: Some(c.value_handle), ..h }
    } else {
        h
    }
}

/// `h` after the characteristics `cs`, in order (later ones win).
pub open spec fn note_characteristics(h: HidGattHandles, cs: Seq<GattCharacteristic>) -> HidGattHandles
    decreases cs.len(),
{
    if cs.len() == 0 {
        h
    } else {
        note_characteristic(note_characteristics(h, cs.drop_last()), cs.last())
    }
}

/// The characteristics of `cs` whose value handle lies in the first HID
/// service of `svcs`, in order (none when there is no HID service).
pub open spec fn in_hid_service(svcs: Seq<GattService>, cs: Seq<GattCharacteristic>) -> Seq<GattCharacteristic> {
    if has_hid_service(svcs) {
        chars_between(cs, hid_service_range(svcs).0, hid_service_range(svcs).1)
    } else {
        Seq::empty()
    }
}

/// The characteristics of `cs` whose value handle lies in `lo..=hi`, in
/// order.
pub open spec fn chars_between(cs: Seq<GattCharacteristic>, lo: u16, hi: u16) -> Seq<GattCharacteristic>
    decreases cs.len(),
{
    if cs.len() == 0 {
        Seq::empty()
    } else {
        let r = chars_between(cs.drop_last(), lo, hi);
        if lo <= cs.last().value_handle <= hi { r.push(cs.last()) } else { r }
    }
}

/// Whether `svcs` holds a HID service.
pub open spec fn has_hid_service(svcs: Seq<GattService>) -> bool {
    exists|i: int| 0 <= i < svcs.len() && svcs[i].uuid.bytes@ == uuid16_bytes(0x1812)
}

/// The range of the first HID service in `svcs`, or (0, 0).
pub open spec fn hid_service_range(svcs: Seq<GattService>) -> (u16, u16) {
    if exists|i: int| 0 <= i < svcs.len() && svcs[i].uuid.bytes@ == uuid16_bytes(0x1812) {
        let i = choose|i: int| 0 <= i < svcs.len() && svcs[i].uuid.bytes@ == uuid16_bytes(0x1812)
            && forall|j: int| 0 <= j < i ==> svcs[j].uuid.bytes@ != uuid16_bytes(0x1812);
        (svcs[i].start_handle, svcs[i].end_handle)
    } else {
        (0, 0)
    }
}

/// Whether every input report characteristic without a CCCD leaves room
/// for one after its value handle.
pub open spec fn cccd_fits(cs: Seq<GattCharacteristic>) -> bool {
    forall|i: int| 0 <= i < cs.len() && (#[trigger] cs[i]).uuid.bytes@ == uuid16_bytes(0x2A4D) && cs[i].cccd_handle is None
        ==> cs[i].value_handle < 0xFFFF
}

/// The range of the first HID service, or (0, 0), and whether there is
/// one.
fn hid_range(services: &[GattService]) -> (r: (u16, u16, bool))
    ensures
        (r.0, r.1) == hid_service_range(services@),
        r.2 == has_hid_service(services@),
{
    let hid = hid_service_uuid();
    let mut i: usize = 0;
    while i < services.len()
        invariant
            i <= services@.len(),
            hid.bytes@ == uuid16_bytes(0x1812),
            forall|j: int| 0 <= j < i ==> services@[j].uuid.bytes@ != uuid16_bytes(0x1812),
        decreases services@.len() - i,
    {
        if services[i].uuid.equals(&hid) {
            return (services[i].start_handle, services[i].end_handle, true);
        }
        i = i + 1;
    }
    (0, 0, false)
}

/// `h` after characteristic `ch` (see `note_characteristic`).
fn note_one(h: HidGattHandles, ch: &GattCharacteristic) -> (r: HidGattHandles)
    requires
        ch.uuid.bytes@ == uuid16_bytes(0x2A4D) && ch.cccd_handle is None ==> ch.value_handle < 0xFFFF,
    ensures
        r == note_characteristic(h, *ch),
{
    let mut handles = h;
    if ch.uuid.equals(&hid_information_uuid()) {
        handles.hid_info_handle = Some(ch.value_handle);
    } else if ch.uuid.equals(&report_map_uuid()) {
        handles.report_map_handle = Some(ch.value_handle);
    } else if ch.uuid.equals(&report_uuid()) {
        handles.input_report_handle = Some(ch.value_handle);
        match ch.cccd_handle {
            Some(c) => {
                handles.input_report_cccd = Some(c);
            },
            None => {
                handles.input_report_cccd = Some(ch.value_handle + 1);
            },
        }
    } else if ch.uuid.equals(&protocol_mode_uuid()) {
        handles.protocol_mode_handle = Some(ch.value_handle);
    } else if ch.uuid.equals(&hid_control_point_uuid()) {
        handles.control_point_handle = Some(ch.value_handle);
    }
    handles
}

/// The HID handles among discovered services and characteristics: the
/// range of the first HID service, and the handles of the HID
/// characteristics within that range (see `note_characteristics`).
#[verifier::rlimit(30)]
pub fn find_hid_handles(services: &[GattService], characteristics: &[GattCharacteristic]) -> (r: HidGattHandles)
    requires
        cccd_fits(characteristics@),
    ensures
        (r.service_start, r.service_end) == hid_service_range(services@),
        r == (HidGattHandles {
            service_start: r.service_start,
            service_end: r.service_end,
            ..note_characteristics(no_handles(), in_hid_service(services@, characteristics@))
        }),
{
    let (start, end, found) = hid_range(services);
    let ghost range = (start, end);
    let mut handles = HidGattHandles::new();
    handles.service_start = start;
    handles.service_end = end;
    if !found {
        return handles;
    }
    let mut k: usize = 0;
    while k < characteristics.len()
        invariant
            k <= characteristics@.len(),
            cccd_fits(characteristics@),
            start == range.0 && end == range.1,
            handles == (HidGattHandles {
                service_start: range.0,
                service_end: range.1,
                ..note_characteristics(no_handles(), chars_between(characteristics@.take(k as int), start, end))
            }),
        decreases characteristics@.len() - k,
    {
        let ch = &characteristics[k];
        proof {
            let t = characteristics@.take(k + 1);
            assert(t.drop_last() =~= characteristics@.take(k as int));
            assert(t.last() == characteristics@[k as int]);
        }
        if start <= ch.value_handle && ch.value_handle <= end {
            proof {
                let f = chars_between(characteristics@.take(k as int), start, end).push(characteristics@[k as int]);
                assert(f.drop_last() =~= chars_between(characteristics@.take(k as int), start, end));
                assert(characteristics@[k as int].uuid.bytes@ == uuid16_bytes(0x2A4D)
                    && characteristics@[k as int].cccd_handle is None ==> characteristics@[k as int].value_handle < 0xFFFF);
            }
            handles = note_one(handles, ch);
        }
        k = k + 1;
    }
    assert(characteristics@.take(k as int) =~= characteristics@);
    assert(in_hid_service(services@, characteristics@) == chars_between(characteristics@, start, end));
    handles
}

/// CCCD value that turns notifications on.
pub fn build_cccd_enable_notify() -> (r: Vec<u8>)
    ensures
        r@ == seq![0x01u8, 0x00],
{
    vec![0x01, 0x00]
}

/// CCCD value that turns indications on.
pub fn build_cccd_enable_indicate() -> (r: Vec<u8>)
    ensures
        r@ == seq![0x02u8, 0x00],
{
    vec![0x02, 0x00]
}

/// CCCD value that turns both off.
pub fn build_cccd_disable() -> (r: Vec<u8>)
    ensures
        r@ == seq![0x00u8, 0x00],
{
    vec![0x00, 0x00]
}

} // verus!
