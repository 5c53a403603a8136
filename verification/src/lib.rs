//! Driver logic for a TM1638 board of seven-segment displays.
//!
//! The chip is driven over three kinds of line: one strobe line per chip (STB),
//! a shared clock (CLK) and a shared data line (DIO). The library decides which
//! levels those lines take, in which order; the caller owns the pins and plays
//! the recorded [`PinOp`]s on them.
use vstd::prelude::*;

pub mod mappings;
pub mod protocol;
pub mod funcs;

use crate::mappings::{CharBits, NumCharBits, SpecialCharBits, letter_for, num_for, special_for};
use crate::protocol::{
    address_modulus, command_ops, command_ops_upto, encode_ops, item_address, listen_ops, one_hot,
    segments_ops_upto, select_ops, send_byte_ops, strobe_ops_upto, write_ops_upto, PinOp,
};

verus! {

/// Number of display registers of one TM1638.
pub const DISPLAY_REGISTERS_COUNT: usize = 16;

/// Level of a GPIO line.
#[derive(Clone, Copy, Debug)]
pub enum GpioPinValue {
    LOW,
    HIGH,
}

impl From<u8> for GpioPinValue {
    fn from(x: u8) -> (r: Self) {
        if x == 0 {
            Self::LOW
        } else {
            Self::HIGH
        }
    }
}

impl vstd::std_specs::convert::FromSpecImpl<u8> for GpioPinValue {
    open spec fn obeys_from_spec() -> bool {
        true
    }

    open spec fn from_spec(x: u8) -> GpioPinValue {
        if x == 0 {
            GpioPinValue::LOW
        } else {
            GpioPinValue::HIGH
        }
    }
}

/// `GpioPinValue::from` reads 0 as a low level and anything else as high.
pub proof fn lemma_gpio_from(x: u8)
    ensures
        (<GpioPinValue as vstd::std_specs::convert::FromSpec<u8>>::from_spec(x) is LOW) == (x == 0),
        (<GpioPinValue as vstd::std_specs::convert::FromSpec<u8>>::from_spec(x) is HIGH) == (x != 0),
{
}

/// Brightness level, from 0 (lowest) to 7 (highest).
#[derive(Clone, Copy, Debug)]
pub enum Brightness {
    L0,
    L1,
    L2,
    L3,
    L4,
    L5,
    L6,
    L7,
}

impl Brightness {
    /// The level's bits in the display control byte.
    pub open spec fn bits(self) -> u8 {
        match self {
            Brightness::L0 => 0b000,
            Brightness::L1 => 0b001,
            Brightness::L2 => 0b010,
            Brightness::L3 => 0b011,
            Brightness::L4 => 0b100,
            Brightness::L5 => 0b101,
            Brightness::L6 => 0b110,
            Brightness::L7 => 0b111,
        }
    }

    /// The level's bits in the display control byte.
    pub fn value(self) -> (r: u8)
        ensures
            r == self.bits(),
    {
        match self {
            Brightness::L0 => 0b000,
            Brightness::L1 => 0b001,
            Brightness::L2 => 0b010,
            Brightness::L3 => 0b011,
            Brightness::L4 => 0b100,
            Brightness::L5 => 0b101,
            Brightness::L6 => 0b110,
            Brightness::L7 => 0b111,
        }
    }
}

/// Whether the display is switched on.
#[derive(Clone, Copy, Debug)]
pub enum DisplayState {
    OFF,
    ON,
}

impl DisplayState {
    /// The state's bit in the display control byte.
    pub open spec fn bits(self) -> u8 {
        match self {
            DisplayState::OFF => 0b0000,
            DisplayState::ON => 0b1000,
        }
    }

    /// The state's bit in the display control byte.
    pub fn value(self) -> (r: u8)
        ensures
            r == self.bits(),
    {
        match self {
            DisplayState::OFF => 0b0000,
            DisplayState::ON => 0b1000,
        }
    }
}

/// The eight binary digits of `n`, most significant first.
pub open spec fn bin_digits(n: u8) -> Seq<u8> {
    seq![
        (n / 128) % 2,
        (n / 64) % 2,
        (n / 32) % 2,
        (n / 16) % 2,
        (n / 8) % 2,
        (n / 4) % 2,
        (n / 2) % 2,
        n % 2,
    ]
}

/// The number that a sequence of binary digits, most significant first, stands for.
pub open spec fn msb_first_value(digits: Seq<u8>) -> int
    decreases digits.len(),
{
    if digits.len() == 0 {
        0
    } else {
        2 * msb_first_value(digits.drop_last()) + digits.last()
    }
}

/// Splits a byte into its eight binary digits, most significant first.
pub fn convert_to_bin(n: u8) -> (r: [u8; 8])
    ensures
        r@ == bin_digits(n),
{
    let r = [
        if n > 127 { 1 } else { 0 },
        if n % 128 > 63 { 1 } else { 0 },
        if n % 64 > 31 { 1 } else { 0 },
        if n % 32 > 15 { 1 } else { 0 },
        if n % 16 > 7 { 1 } else { 0 },
        if n % 8 >= 4 { 1 } else { 0 },
        if n % 4 >= 2 { 1 } else { 0 },
        n % 2,
    ];
    assert(r@ =~= bin_digits(n));
    r
}

/// The digits of `convert_to_bin(n)` are binary and read back, most significant first, as `n`.
pub proof fn lemma_bin_digits_value(n: u8)
    ensures
        bin_digits(n).len() == 8,
        forall|k: int| 0 <= k < 8 ==> #[trigger] bin_digits(n)[k] <= 1,
        msb_first_value(bin_digits(n)) == n,
{
    reveal_with_fuel(msb_first_value, 9);
}

/// The control byte `b` with the display switched to `ds`: the on/off bit is
/// that of `ds`, the level bits are kept, the other bits cleared.
pub open spec fn with_display_state(b: u8, ds: DisplayState) -> u8 {
    ds.bits() | (b & 0b0000_0111)
}

/// The control byte `b` with the brightness level set to `level`: the on/off
/// bit is kept, the level bits are those of `level`, the other bits cleared.
pub open spec fn with_brightness(b: u8, level: Brightness) -> u8 {
    (b & DisplayState::ON.bits()) | level.bits()
}

/// On/off and brightness are independent settings: each setter keeps the
/// other setting, sets its own, leaves only the four control bits, and the
/// two setters give the same byte in either order.
pub proof fn lemma_display_settings_independent(b: u8, ds: DisplayState, level: Brightness)
    ensures
        with_display_state(b, ds) & 0b0111 == b & 0b0111,
        with_display_state(b, ds) & 0b1000 == ds.bits(),
        with_display_state(b, ds) <= 0b1111,
        with_brightness(b, level) & 0b1000 == b & 0b1000,
        with_brightness(b, level) & 0b0111 == level.bits(),
        with_brightness(b, level) <= 0b1111,
        with_brightness(with_display_state(b, ds), level) == with_display_state(
            with_brightness(b, level),
            ds,
        ),
        with_brightness(with_display_state(b, ds), level) == ds.bits() | level.bits(),
{
    let d = ds.bits();
    let l = level.bits();
    assert(d == 0 || d == 8);
    assert(l <= 7);
    assert(
        (d | (b & 7u8)) & 7u8 == b & 7u8
        && (d | (b & 7u8)) & 8u8 == d
        && (d | (b & 7u8)) <= 15u8
        && ((b & 8u8) | l) & 8u8 == b & 8u8
        && ((b & 8u8) | l) & 7u8 == l
        && ((b & 8u8) | l) <= 15u8
        && (((d | (b & 7u8)) & 8u8) | l) == d | ((((b & 8u8) | l)) & 7u8)
        && (((d | (b & 7u8)) & 8u8) | l) == d | l
    ) by (bit_vector)
        requires
            d == 0u8 || d == 8u8,
            l <= 7u8,
    ;
}

/// The control byte's fields: brightness level `Lk` is the number `k` in the
/// level bits, from 0 (lowest) to 7 (highest), in the order of the levels;
/// the display state is bit 3, set for on and clear for off.
pub proof fn lemma_control_fields(b: u8)
    ensures
        Brightness::L0.bits() == 0,
        Brightness::L1.bits() == 1,
        Brightness::L2.bits() == 2,
        Brightness::L3.bits() == 3,
        Brightness::L4.bits() == 4,
        Brightness::L5.bits() == 5,
        Brightness::L6.bits() == 6,
        Brightness::L7.bits() == 7,
        DisplayState::OFF.bits() == 0,
        DisplayState::ON.bits() == 0b1000,
        with_brightness(b, Brightness::L0) & 0b0111 == 0,
        with_brightness(b, Brightness::L7) & 0b0111 == 0b0111,
        with_display_state(b, DisplayState::OFF) & 0b1000 == 0,
        with_display_state(b, DisplayState::ON) & 0b1000 == 0b1000,
{
    lemma_display_settings_independent(b, DisplayState::OFF, Brightness::L0);
    lemma_display_settings_independent(b, DisplayState::ON, Brightness::L7);
}

/// A driver call, as far as the display control byte is concerned: one of the
/// two setters, or any other method (all of which keep the byte).
pub enum ControlCall {
    SetDisplayState(DisplayState),
    SetBrightness(Brightness),
    Other,
}

/// The control byte after a fresh driver has taken `calls`, in order: it
/// starts as [`TM1638Adapter::new`] leaves it, and each call changes it as
/// that call's contract says.
pub open spec fn control_byte_after(calls: Seq<ControlCall>) -> u8
    decreases calls.len(),
{
    if calls.len() == 0 {
        0b1111
    } else {
        let b = control_byte_after(calls.drop_last());
        match calls.last() {
            ControlCall::SetDisplayState(ds) => with_display_state(b, ds),
            ControlCall::SetBrightness(level) => with_brightness(b, level),
            ControlCall::Other => b,
        }
    }
}

/// Whether the last on/off setting among `calls` switched the display on
/// (it is on when there was none).
pub open spec fn last_display_on(calls: Seq<ControlCall>) -> bool
    decreases calls.len(),
{
    if calls.len() == 0 {
        true
    } else {
        match calls.last() {
            ControlCall::SetDisplayState(ds) => ds == DisplayState::ON,
            _ => last_display_on(calls.drop_last()),
        }
    }
}

/// The last brightness level set among `calls` (7 when there was none).
pub open spec fn last_level(calls: Seq<ControlCall>) -> u8
    decreases calls.len(),
{
    if calls.len() == 0 {
        0b111
    } else {
        match calls.last() {
            ControlCall::SetBrightness(level) => level.bits(),
            _ => last_level(calls.drop_last()),
        }
    }
}

/// Over any sequence of driver calls the control byte keeps to its four
/// bits, its on/off bit is that of the last on/off setting, and its level
/// bits are the last level set.
pub proof fn lemma_control_byte_tracks_settings(calls: Seq<ControlCall>)
    ensures
        control_byte_after(calls) & 0b1111_0000 == 0,
        control_byte_after(calls) <= 0b1111,
        (control_byte_after(calls) & 0b1000 == 0b1000) == last_display_on(calls),
        control_byte_after(calls) & 0b0111 == last_level(calls),
    decreases calls.len(),
{
    let b = control_byte_after(calls);
    if calls.len() == 0 {
        assert(0b1111u8 & 0b1111_0000u8 == 0 && 0b1111u8 & 0b1000u8 == 0b1000u8 && 0b1111u8 & 0b0111u8
            == 0b111u8) by (bit_vector);
    } else {
        let prev = calls.drop_last();
        lemma_control_byte_tracks_settings(prev);
        let a = control_byte_after(prev);
        match calls.last() {
            ControlCall::SetDisplayState(ds) => {
                lemma_display_settings_independent(a, ds, Brightness::L0);
                assert(ds.bits() == 0 || ds.bits() == 8);
                assert(ds == DisplayState::ON <==> ds.bits() == 8);
            },
            ControlCall::SetBrightness(level) => {
                lemma_display_settings_independent(a, DisplayState::ON, level);
            },
            ControlCall::Other => {},
        }
        assert(b <= 15u8 ==> b & 0b1111_0000u8 == 0) by (bit_vector);
    }
}

/// The driver state of a board of `STB` TM1638 chips: the display control
/// byte, and the line changes decided so far that the pins have not yet
/// played.
pub struct TM1638Adapter<const STB: usize> {
    brightness: u8,
    ops: Vec<PinOp>,
}

impl<const STB: usize> TM1638Adapter<STB> {
    /// The display control byte: bit 3 is on/off, bits 0 to 2 the brightness level.
    pub closed spec fn brightness_byte(&self) -> u8 {
        self.brightness
    }

    /// The line changes decided and not yet handed out.
    pub closed spec fn pending(&self) -> Seq<PinOp> {
        self.ops@
    }

    /// A driver for a display that is on, at the highest brightness, with no
    /// line change pending.
    pub fn new() -> (r: Self)
        ensures
            r.brightness_byte() == DisplayState::ON.bits() | Brightness::L7.bits(),
            r.brightness_byte() == 0b1111,
            r.pending() == Seq::<PinOp>::empty(),
    {
        let b = DisplayState::ON.value() | Brightness::L7.value();
        assert(0b1000u8 | 0b111u8 == 0b1111u8) by (bit_vector);
        TM1638Adapter { brightness: b, ops: Vec::new() }
    }

    /// The display control byte.
    pub fn brightness(&self) -> (r: u8)
        ensures
            r == self.brightness_byte(),
    {
        self.brightness
    }

    /// The line changes decided and not yet handed out.
    pub fn pending_ops(&self) -> (r: &Vec<PinOp>)
        ensures
            r@ == self.pending(),
    {
        &self.ops
    }

    /// Hands out the pending line changes, in order, and forgets them.
    pub fn take_ops(&mut self) -> (r: Vec<PinOp>)
        ensures
            r@ == old(self).pending(),
            final(self).pending() == Seq::<PinOp>::empty(),
            final(self).brightness_byte() == old(self).brightness_byte(),
    {
        let mut taken = Vec::new();
        std::mem::swap(&mut taken, &mut self.ops);
        taken
    }

    /// Switches the display on or off and keeps the brightness level.
    pub fn set_display_state(&mut self, ds: DisplayState)
        ensures
            final(self).brightness_byte() == with_display_state(old(self).brightness_byte(), ds),
            final(self).pending() == old(self).pending(),
    {
        let old_brightness = self.brightness & 0b0000_0111;
        self.brightness = ds.value() | old_brightness;
    }

    /// Sets the brightness level and keeps whether the display is on.
    pub fn set_brightness(&mut self, brightness: Brightness)
        ensures
            final(self).brightness_byte() == with_brightness(old(self).brightness_byte(), brightness),
            final(self).pending() == old(self).pending(),
    {
        let display_on = self.brightness & DisplayState::ON.value();
        self.brightness = display_on | brightness.value();
    }

    /// Clocks out an eight-entry command array, last entry first: for each
    /// entry the data line follows it (when it is 0 or 1), then the clock
    /// pulses once.
    pub fn command(&mut self, byte: [u8; 8])
        ensures
            final(self).pending() == old(self).pending() + command_ops(byte@),
            final(self).brightness_byte() == old(self).brightness_byte(),
    {
        let ghost start = self.ops@;
        for i in 0..8
            invariant
                self.ops@ == start + command_ops_upto(byte@, i as nat),
                self.brightness == old(self).brightness,
                start == old(self).ops@,
        {
            match byte[7 - i] {
                0 => {
                    self.ops.push(PinOp::DioLow);
                },
                1 => {
                    self.ops.push(PinOp::DioHigh);
                },
                _ => {},
            }
            self.ops.push(PinOp::ClkHigh);
            self.ops.push(PinOp::ClkLow);
            proof {
                assert(self.ops@ =~= start + command_ops_upto(byte@, (i + 1) as nat));
            }
        }
    }

    /// Drives the strobe lines: each goes high (deselected), then low
    /// (selected) again where its entry of `s` is 1.
    pub fn listen(&mut self, s: [u8; STB])
        ensures
            final(self).pending() == old(self).pending() + listen_ops(s@),
            final(self).brightness_byte() == old(self).brightness_byte(),
    {
        let ghost start = self.ops@;
        for i in 0..STB
            invariant
                self.ops@ == start + strobe_ops_upto(s@, i as nat),
                self.brightness == old(self).brightness,
                start == old(self).ops@,
                s@.len() == STB,
        {
            self.ops.push(PinOp::StbHigh(i));
            if s[i] == 1 {
                self.ops.push(PinOp::StbLow(i));
            }
            proof {
                assert(self.ops@ =~= start + strobe_ops_upto(s@, (i + 1) as nat));
            }
        }
    }

    /// Selects the chip `address / 16` and sets its address register to
    /// `address % 16`.
    pub fn select_address(&mut self, address: u8)
        requires
            address as int / 16 < STB,
        ensures
            final(self).pending() == old(self).pending() + select_ops(STB as nat, address),
            final(self).brightness_byte() == old(self).brightness_byte(),
    {
        let mut address = address;
        let mut displays: [u8; STB] = [0; STB];
        displays[address as usize / 16] = 1;
        assert(displays@ =~= one_hot(STB as nat, address as int / 16));
        self.listen(displays);
        address %= 16;
        self.command(convert_to_bin(192 + address));
    }

    /// Writes one character at `address`: selects the address, then sends the
    /// digit image, the letter image and the symbol image that the character
    /// selects (a character outside a table selects that table's fallback:
    /// zero, 'A' and blank).
    pub fn encode_char(&mut self, address: u8, chars: char)
        requires
            address as int / 16 < STB,
        ensures
            final(self).pending() == old(self).pending() + encode_ops(STB as nat, address, chars),
            final(self).brightness_byte() == old(self).brightness_byte(),
    {
        self.select_address(address);
        let nums: NumCharBits = match chars {
            '0' => NumCharBits::Zero,
            '1' => NumCharBits::One,
            '2' => NumCharBits::Two,
            '3' => NumCharBits::Three,
            '4' => NumCharBits::Four,
            '5' => NumCharBits::Five,
            '6' => NumCharBits::Six,
            '7' => NumCharBits::Seven,
            '8' => NumCharBits::Eight,
            '9' => NumCharBits::Nine,
            _ => NumCharBits::Zero,
        };
        let letters: CharBits = match chars {
            'A' => CharBits::UpA,
            'C' => CharBits::UpC,
            'E' => CharBits::UpE,
            'F' => CharBits::UpF,
            'G' => CharBits::UpG,
            'H' => CharBits::UpH,
            'I' => CharBits::UpI,
            'J' => CharBits::UpJ,
            'L' => CharBits::UpL,
            'O' => CharBits::UpO,
            'P' => CharBits::UpP,
            'S' => CharBits::UpS,
            'U' => CharBits::UpU,
            _ => CharBits::UpA,
        };
        let specials: SpecialCharBits = match chars {
            ' ' => SpecialCharBits::Space,
            '?' => SpecialCharBits::QuestionMark,
            '-' => SpecialCharBits::Minus,
            '_' => SpecialCharBits::Underscore,
            '=' => SpecialCharBits::Equals,
            '.' => SpecialCharBits::Dot,
            _ => SpecialCharBits::Space,
        };
        assert(nums == num_for(chars));
        assert(letters == letter_for(chars));
        assert(specials == special_for(chars));
        let n = nums.value();
        let l = letters.value();
        let spec = specials.value();
        self.command(convert_to_bin(n));
        self.command(convert_to_bin(l));
        self.command(convert_to_bin(spec));
        assert(self.ops@ =~= old(self).ops@ + encode_ops(STB as nat, address, chars));
    }

    /// Writes `text` from `address` on, one character every two addresses,
    /// wrapping around at `16 * STB` (the chip count taken modulo 256, as a
    /// byte).
    pub fn write_char(&mut self, address: u8, text: &str)
        requires
            address as int / 16 < STB,
            text@.len() > 0 ==> 1 <= STB % 256 <= 15 && address <= 253,
        ensures
            final(self).pending() == old(self).pending() + select_ops(STB as nat, address)
                + write_ops_upto(STB as nat, address, text@, text@.len()),
            final(self).brightness_byte() == old(self).brightness_byte(),
    {
        broadcast use vstd::string::axiom_spec_iter;
        let start = address;
        let mut address = address;
        self.select_address(address);
        let ghost base = self.ops@;
        for c in it: text.chars()
            invariant
                it.seq() == text@,
                address == item_address(STB as nat, start, it.index() as int),
                address as int / 16 < STB,
                text@.len() > 0 ==> 1 <= STB % 256 <= 15 && start <= 253,
                start as int / 16 < STB,
                it.index() > 0 ==> address < address_modulus(STB as nat),
                self.ops@ == base + write_ops_upto(STB as nat, start, text@, it.index() as nat),
                self.brightness == old(self).brightness,
        {
            let ghost k = it.index();
            self.encode_char(address, c);
            proof {
                assert(self.ops@ =~= base + write_ops_upto(STB as nat, start, text@, (k + 1) as nat));
            }
            let m: u8 = 16 * ((STB % 256) as u8);
            address += 2;
            address %= m;
            proof {
                lemma_next_item_address(STB as nat, start, k as int);
            }
        }
    }

    /// Writes raw segment bytes from `address` on: for each byte its address
    /// is selected and the byte sent; consecutive bytes are two addresses
    /// apart, wrapping around as in [`Self::write_char`].
    ///
    /// This is this crate's own way of showing a whole picture (the routines
    /// of [`crate::funcs`] use it): one byte per digit, addressed as
    /// [`Self::write_char`] addresses characters, since the board's chips
    /// hold a digit at every second address.
    pub fn write_segments_raw(&mut self, segments: &[u8], address: u8)
        requires
            address as int / 16 < STB,
            segments@.len() > 0 ==> 1 <= STB % 256 <= 15 && address <= 253,
        ensures
            final(self).pending() == old(self).pending() + segments_ops_upto(
                STB as nat,
                address,
                segments@,
                segments@.len(),
            ),
            final(self).brightness_byte() == old(self).brightness_byte(),
    {
        let start = address;
        let mut address = address;
        let ghost base = self.ops@;
        let mut i: usize = 0;
        while i < segments.len()
            invariant
                i <= segments@.len(),
                address == item_address(STB as nat, start, i as int),
                address as int / 16 < STB,
                segments@.len() > 0 ==> 1 <= STB % 256 <= 15 && start <= 253,
                start as int / 16 < STB,
                i > 0 ==> address < address_modulus(STB as nat),
                self.ops@ == base + segments_ops_upto(STB as nat, start, segments@, i as nat),
                self.brightness == old(self).brightness,
                base == old(self).ops@,
            decreases segments@.len() - i,
        {
            self.select_address(address);
            self.command(convert_to_bin(segments[i]));
            proof {
                assert(self.ops@ =~= base + segments_ops_upto(STB as nat, start, segments@, (i + 1) as nat));
            }
            let m: u8 = 16 * ((STB % 256) as u8);
            address += 2;
            address %= m;
            proof {
                lemma_next_item_address(STB as nat, start, i as int);
            }
            i += 1;
        }
    }


    /// Blanks the board's digits: writes a blank to each of the
    /// `DISPLAY_COUNT` digits from address 0 on.
    ///
    /// This crate's own design, built on [`Self::write_segments_raw`]: it
    /// blanks the eight digits that the routines of [`crate::funcs`] draw on.
    pub fn clear(&mut self)
        requires
            1 <= STB % 256 <= 15,
        ensures
            final(self).pending() == old(self).pending() + segments_ops_upto(
                STB as nat,
                0,
                Seq::new(crate::funcs::DISPLAY_COUNT as nat, |i: int| 0u8),
                crate::funcs::DISPLAY_COUNT as nat,
            ),
            final(self).brightness_byte() == old(self).brightness_byte(),
    {
        let blank: [u8; crate::funcs::DISPLAY_COUNT] = [0; crate::funcs::DISPLAY_COUNT];
        assert(blank@ =~= Seq::new(crate::funcs::DISPLAY_COUNT as nat, |i: int| 0u8));
        self.write_segments_raw(blank.as_slice(), 0);
    }

}

/// The text that [`Connector::reset`] shows.
pub open spec fn reset_text() -> Seq<char> {
    seq!['A', 'C', 'E', 'F']
}

/// The address at which [`Connector::reset`] shows its text.
pub open spec fn reset_address() -> u8 {
    22
}

/// A board of `STB` chips as the program drives it.
pub struct Connector<const STB: usize> {
    displays: TM1638Adapter<STB>,
}

impl<const STB: usize> Connector<STB> {
    /// The driver of the board.
    pub closed spec fn adapter(&self) -> TM1638Adapter<STB> {
        self.displays
    }

    /// A board whose driver is freshly made.
    pub fn new() -> (r: Self)
        ensures
            r.adapter().brightness_byte() == 0b1111,
            r.adapter().pending() == Seq::<PinOp>::empty(),
    {
        let displays = TM1638Adapter::new();
        Connector { displays }
    }

    /// The driver of the board.
    pub fn displays(&self) -> (r: &TM1638Adapter<STB>)
        ensures
            *r == self.adapter(),
    {
        &self.displays
    }

    /// Hands out the line changes that the board's driver has pending.
    pub fn take_ops(&mut self) -> (r: Vec<PinOp>)
        ensures
            r@ == old(self).adapter().pending(),
            final(self).adapter().pending() == Seq::<PinOp>::empty(),
            final(self).adapter().brightness_byte() == old(self).adapter().brightness_byte(),
    {
        self.displays.take_ops()
    }

    /// Brings the board to a known picture: brightness level 4, display on,
    /// and "ACEF" written from address 22 on.
    pub fn reset(&mut self)
        requires
            2 <= STB,
            1 <= STB % 256 <= 15,
        ensures
            final(self).adapter().brightness_byte() == DisplayState::ON.bits() | Brightness::L4.bits(),
            final(self).adapter().brightness_byte() == 0b1100,
            final(self).adapter().pending() == old(self).adapter().pending() + select_ops(
                STB as nat,
                reset_address(),
            ) + write_ops_upto(STB as nat, reset_address(), reset_text(), 4),
    {
        self.displays.set_brightness(Brightness::L4);
        self.displays.set_display_state(DisplayState::ON);
        let text = "ACEF";
        proof {
            reveal_strlit("ACEF");
            assert(text@ =~= reset_text());
            let b = old(self).displays.brightness;
            assert(0b1000u8 | (((b & 0b1000u8) | 0b100u8) & 0b111u8) == 0b1100u8) by (bit_vector);
            assert(0b1000u8 | 0b100u8 == 0b1100u8) by (bit_vector);
        }
        self.displays.write_char(22, text);
    }
}

/// Every item of a run lands on a chip of the board: when the start address
/// is on the board, so is the address of each later item.
pub proof fn lemma_item_addresses_on_board(stb: nat, start: u8, k: nat)
    requires
        start as int / 16 < stb,
        1 <= stb % 256 <= 15,
        start <= 253,
    ensures
        item_address(stb, start, k as int) as int / 16 < stb,
    decreases k,
{
    if k > 0 {
        lemma_item_addresses_on_board(stb, start, (k - 1) as nat);
        lemma_next_item_address(stb, start, k - 1);
    }
}

/// Consecutive items of a run are two addresses apart: stepping two
/// addresses on from the `k`-th item, and wrapping around at the address
/// modulus, gives the address of the next item.
pub proof fn lemma_next_item_address(stb: nat, start: u8, k: int)
    requires
        0 <= k,
        1 <= stb % 256 <= 15,
        start as int / 16 < stb,
        start <= 253,
    ensures
        (item_address(stb, start, k) + 2) % address_modulus(stb) == item_address(stb, start, k + 1),
        item_address(stb, start, k + 1) < address_modulus(stb),
        item_address(stb, start, k + 1) as int / 16 < stb,
{
    let m = address_modulus(stb);
    assert(16 <= m <= 240);
    if k > 0 {
        vstd::arithmetic::div_mod::lemma_add_mod_noop(start + 2 * k, 2, m);
        vstd::arithmetic::div_mod::lemma_small_mod(2, m as nat);
    }
}

} // verus!
